//! Articles as the feed and the article page show them to a viewer.
use vstd::prelude::*;

use super::user::UserPreview;

verus! {

/// An article with the state relative to the viewer: `fav` and the author's
/// `following` are the viewer's; `created_at` is in seconds since the Unix epoch.
#[derive(Clone, Debug)]
pub struct Article {
    pub slug: String,
    pub title: String,
    /// Left out in lists.
    pub body: Option<String>,
    pub description: String,
    pub created_at: u64,
    pub favorites_count: i64,
    pub tag_list: Vec<String>,
    pub author: UserPreview,
    pub fav: bool,
}

/// The short form of an article in a list.
#[derive(Clone, Debug)]
pub struct ArticlePreview {
    pub slug: String,
    pub title: String,
    pub description: String,
    pub created_at: u64,
    pub favorites_count: Option<i64>,
    pub author: UserPreview,
    pub fav: bool,
    pub tags: Vec<String>,
}

impl ArticlePreview {
    /// The preview of an article.
    pub fn of(a: &Article) -> (r: ArticlePreview)
        ensures
            r.slug@ == a.slug@,
            r.title@ == a.title@,
            r.description@ == a.description@,
            r.created_at == a.created_at,
            r.favorites_count == Some(a.favorites_count),
            r.author.username@ == a.author.username@,
            r.fav == a.fav,
            r.tags@.map_values(|t: String| t@) == a.tag_list@.map_values(|t: String| t@),
    {
        let mut tags: Vec<String> = Vec::new();
        let mut i: usize = 0;
        while i < a.tag_list.len()
            invariant
                i <= a.tag_list@.len(),
                tags@.map_values(|t: String| t@) == a.tag_list@.subrange(0, i as int).map_values(
                    |t: String| t@,
                ),
            decreases a.tag_list.len() - i,
        {
            let ghost prev = tags@;
            tags.push(a.tag_list[i].clone());
            assert(tags@ == prev.push(tags@.last()));
            assert(a.tag_list@.subrange(0, i + 1) =~= a.tag_list@.subrange(0, i as int).push(
                a.tag_list@[i as int],
            ));
            assert(tags@.map_values(|t: String| t@) =~= prev.map_values(|t: String| t@).push(
                a.tag_list@[i as int]@,
            ));
            assert(a.tag_list@.subrange(0, i + 1).map_values(|t: String| t@) =~= a.tag_list@.subrange(
                0,
                i as int,
            ).map_values(|t: String| t@).push(a.tag_list@[i as int]@));
            i = i + 1;
        }
        assert(a.tag_list@.subrange(0, i as int) =~= a.tag_list@);
        ArticlePreview {
            slug: a.slug.clone(),
            title: a.title.clone(),
            description: a.description.clone(),
            created_at: a.created_at,
            favorites_count: Some(a.favorites_count),
            author: UserPreview {
                username: a.author.username.clone(),
                image: a.author.image.clone(),
                following: a.author.following,
            },
            fav: a.fav,
            tags,
        }
    }
}

} // verus!
