//! The session cookie: reading it from a `Cookie` header and the `Set-Cookie`
//! values that set or clear it.
use vstd::prelude::*;

use crate::text::{join3, starts_with};

verus! {

/// Name of the session cookie.
pub const AUTH_COOKIE: &'static str = "token";

/// The `Set-Cookie` value that evicts the session cookie.
pub const REMOVE_COOKIE: &'static str = "token=; path=/; expires=Thu, 01 Jan 1970 00:00:00 GMT";

/// A `; ` separator starts at `i`.
pub open spec fn separator_at(h: Seq<char>, i: int) -> bool {
    0 <= i && i + 1 < h.len() && h[i] == ';' && h[i + 1] == ' '
}

/// The entry `h[start..end]` is the session cookie: it starts with `token=`.
pub open spec fn is_session_entry(h: Seq<char>, start: int, end: int) -> bool {
    start + 6 <= end && h.subrange(start, start + 6) == "token="@
}

/// Scanning `h` from `i`, in an entry that began at `start`: the value of the
/// first entry, split on `; `, whose name is `token`.
pub open spec fn session_value_from(h: Seq<char>, i: int, start: int) -> Option<Seq<char>>
    decreases h.len() - i,
{
    if i >= h.len() {
        if is_session_entry(h, start, h.len() as int) {
            Some(h.subrange(start + 6, h.len() as int))
        } else {
            None
        }
    } else if separator_at(h, i) {
        if is_session_entry(h, start, i) {
            Some(h.subrange(start + 6, i))
        } else {
            session_value_from(h, i + 2, i + 2)
        }
    } else {
        session_value_from(h, i + 1, start)
    }
}

/// The value of the session cookie in a `Cookie` header, if it is there.
pub open spec fn session_value(h: Seq<char>) -> Option<Seq<char>> {
    session_value_from(h, 0, 0)
}

pub open spec fn text_view(o: Option<String>) -> Option<Seq<char>> {
    match o {
        Some(s) => Some(s@),
        None => None,
    }
}

proof fn lemma_entry_prefix(h: Seq<char>, start: int, end: int)
    requires
        0 <= start <= end <= h.len(),
    ensures
        is_session_entry(h, start, end) == ("token="@.len() <= h.subrange(start, end).len()
            && h.subrange(start, end).subrange(0, "token="@.len() as int) == "token="@),
{
    reveal_strlit("token=");
    if start + 6 <= end {
        assert(h.subrange(start, end).subrange(0, 6) =~= h.subrange(start, start + 6));
    }
}

/// The value of the first `token=` entry of a `Cookie` header, split on `; `.
pub fn extract_token(header: &str) -> (r: Option<String>)
    ensures
        text_view(r) == session_value(header@),
{
    proof {
        reveal_strlit("token=");
    }
    let n = header.unicode_len();
    let mut i: usize = 0;
    let mut start: usize = 0;
    while i < n
        invariant
            n as nat == header@.len(),
            start <= i <= n,
            session_value_from(header@, i as int, start as int) == session_value(header@),
        decreases n - i,
    {
        if i + 1 < n && header.get_char(i) == ';' && header.get_char(i + 1) == ' ' {
            let entry = header.substring_char(start, i);
            let found = starts_with(entry, "token=");
            proof {
                lemma_entry_prefix(header@, start as int, i as int);
            }
            if found {
                return Some(header.substring_char(start + 6, i).to_owned());
            }
            i = i + 2;
            start = i;
        } else {
            i = i + 1;
        }
    }
    let entry = header.substring_char(start, n);
    let found = starts_with(entry, "token=");
    proof {
        lemma_entry_prefix(header@, start as int, n as int);
    }
    if found {
        Some(header.substring_char(start + 6, n).to_owned())
    } else {
        None
    }
}

/// The `Set-Cookie` value that carries a session token: path `/`, `HttpOnly`,
/// no expiry of its own.
pub fn session_cookie(token: &str) -> (r: String)
    ensures
        r@ == "token="@ + token@ + "; path=/; HttpOnly"@,
{
    join3("token=", token, "; path=/; HttpOnly")
}

} // verus!
