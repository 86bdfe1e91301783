//! Comments as the article page shows them.
use vstd::prelude::*;

verus! {

/// A comment with its author's image; `created_at` is in seconds since the Unix epoch.
#[derive(Clone, Debug)]
pub struct Comment {
    pub id: i32,
    pub article: String,
    pub username: String,
    pub body: String,
    pub created_at: u64,
    pub user_image: Option<String>,
}

} // verus!
