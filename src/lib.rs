//! Core logic of a social blogging platform: session tokens, cookie handling,
//! the route guard, input validation, and an in-memory relational store with
//! the article listing and the follow / favorite toggles.
pub mod api;
pub mod auth;
pub mod editor;
pub mod models;
pub mod store;
pub mod text;
