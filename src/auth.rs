//! Authentication: signed session tokens, the session cookie, and the route guard.
pub mod token;
pub mod cookie;
pub mod guard;
