//! The route guard: which requests are forwarded and which are redirected.
use vstd::prelude::*;

use crate::text::{owned, starts_with};

verus! {

/// How a path relates to authentication.
#[derive(Clone, Copy, Debug, PartialEq, Eq, Structural)]
pub enum PathKind {
    /// Login and signup pages: hidden once authenticated.
    AuthOnly,
    /// Settings and the editor: need a session.
    AuthRequired,
    /// Everything else.
    Public,
}

/// What the guard does with a request.
#[derive(Clone, Debug)]
pub enum GuardAction {
    /// Hand the request to its handler.
    Forward,
    /// Answer with a redirect to `location` and no body; `clear_cookie` evicts
    /// the session cookie.
    Redirect { location: String, clear_cookie: bool },
}

pub open spec fn has_prefix(s: Seq<char>, p: Seq<char>) -> bool {
    p.len() <= s.len() && s.subrange(0, p.len() as int) == p
}

pub open spec fn path_kind(path: Seq<char>) -> PathKind {
    if has_prefix(path, "/login"@) || has_prefix(path, "/signup"@) {
        PathKind::AuthOnly
    } else if has_prefix(path, "/settings"@) || has_prefix(path, "/editor"@) {
        PathKind::AuthRequired
    } else {
        PathKind::Public
    }
}

/// Sorts a path into the guard's three kinds by its prefix.
pub fn classify_path(path: &str) -> (r: PathKind)
    ensures
        r == path_kind(path@),
{
    if starts_with(path, "/login") || starts_with(path, "/signup") {
        PathKind::AuthOnly
    } else if starts_with(path, "/settings") || starts_with(path, "/editor") {
        PathKind::AuthRequired
    } else {
        PathKind::Public
    }
}

/// The guard's decision, as (location, clear cookie), or `None` to forward.
pub open spec fn guard_decision(authenticated: bool, kind: PathKind) -> Option<(Seq<char>, bool)> {
    if authenticated && kind == PathKind::AuthOnly {
        Some(("/"@, false))
    } else if !authenticated && kind == PathKind::AuthRequired {
        Some(("/login"@, true))
    } else {
        None
    }
}

pub open spec fn action_view(a: GuardAction) -> Option<(Seq<char>, bool)> {
    match a {
        GuardAction::Forward => None,
        GuardAction::Redirect { location, clear_cookie } => Some((location@, clear_cookie)),
    }
}

/// The policy table: an authenticated user is sent from the login and signup
/// pages to `/`; an anonymous one is sent from settings and the editor to
/// `/login`, with the session cookie cleared; all else is forwarded.
pub fn guard(authenticated: bool, kind: PathKind) -> (r: GuardAction)
    ensures
        action_view(r) == guard_decision(authenticated, kind),
{
    if authenticated && kind == PathKind::AuthOnly {
        GuardAction::Redirect { location: owned("/"), clear_cookie: false }
    } else if !authenticated && kind == PathKind::AuthRequired {
        GuardAction::Redirect { location: owned("/login"), clear_cookie: true }
    } else {
        GuardAction::Forward
    }
}

/// The guard applied to a resolved session and a request path.
pub fn route_guard(session: &Option<String>, path: &str) -> (r: GuardAction)
    ensures
        action_view(r) == guard_decision(session.is_some(), path_kind(path@)),
{
    guard(session.is_some(), classify_path(path))
}

/// An anonymous request for a page that needs a session is sent to `/login`
/// with the cookie cleared; an authenticated one for the login page is sent to `/`.
pub proof fn lemma_guard_redirects(path: Seq<char>)
    ensures
        has_prefix(path, "/settings"@) ==> guard_decision(false, path_kind(path)) == Some(
            ("/login"@, true),
        ),
        has_prefix(path, "/login"@) ==> guard_decision(true, path_kind(path)) == Some(
            ("/"@, false),
        ),
{
    reveal_strlit("/settings");
    reveal_strlit("/login");
    reveal_strlit("/signup");
    if has_prefix(path, "/settings"@) {
        assert(path.subrange(0, 9)[1] == path[1]);
        assert(path.subrange(0, 9)[2] == path[2]);
        assert(path[1] == 's');
        assert(!has_prefix(path, "/login"@)) by {
            assert("/login"@[1] == 'l');
            if has_prefix(path, "/login"@) {
                assert(path.subrange(0, 6)[1] == path[1]);
            }
        }
        assert(!has_prefix(path, "/signup"@)) by {
            assert("/signup"@[2] == 'i');
            assert("/settings"@[2] == 'e');
            assert(path.subrange(0, 9)[2] == path[2]);
            if has_prefix(path, "/signup"@) {
                assert(path.subrange(0, 7)[2] == path[2]);
            }
        }
    }
}

} // verus!
