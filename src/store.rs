//! An in-memory relational store: users, articles, article tags, follows,
//! favorites and comments, with the queries and mutations of the platform.
use vstd::prelude::*;

use crate::text::same_text;

mod comments;
mod listing;
mod removal;
mod saving;
mod toggles;
mod users;

pub use comments::{comment_is, comments_on};
pub use listing::{
    feed_owner, image_of, lemma_feed_pages, matching_between, page_of, page_span,
    profile_selection, row_is, selection, selects, slug_taken, tags_in_use, texts, Filter,
    Selector,
};
pub use saving::{article_saved, creation_date, owned_by, saved_fields, target_slug};
pub use toggles::{favorite_toggled, follow_toggled, lemma_favorite_twice, lemma_toggle_twice, link_toggled};
pub use users::{
    email_taken, hs256_of, profile_view, record_of, salted, updated_record, user_named,
};

verus! {

/// A stored user. The password is kept only as a keyed digest.
#[derive(Clone, Debug)]
pub struct UserRecord {
    pub username: String,
    pub email: String,
    pub password_digest: String,
    pub bio: Option<String>,
    pub image: Option<String>,
}

/// A stored article; `created_at` is in seconds since the Unix epoch.
#[derive(Clone, Debug)]
pub struct ArticleRecord {
    pub slug: String,
    pub title: String,
    pub description: String,
    pub body: String,
    pub author: String,
    pub created_at: u64,
}

/// A row of a join table: article → tag, follower → followed, user → favorited article.
#[derive(Clone, Debug)]
pub struct Link {
    pub from: String,
    pub to: String,
}

/// A stored comment.
#[derive(Clone, Debug)]
pub struct CommentRecord {
    pub id: i32,
    pub article: String,
    pub username: String,
    pub body: String,
    pub created_at: u64,
}

/// The tables of the platform.
pub struct Store {
    password_key: Vec<u8>,
    users: Vec<UserRecord>,
    articles: Vec<ArticleRecord>,
    tags: Vec<Link>,
    follows: Vec<Link>,
    favorites: Vec<Link>,
    comments: Vec<CommentRecord>,
    next_comment_id: i32,
}

/// What a `Store` holds.
pub struct StoreView {
    pub password_key: Seq<u8>,
    pub users: Seq<UserRecord>,
    pub articles: Seq<ArticleRecord>,
    pub tags: Seq<Link>,
    pub follows: Seq<Link>,
    pub favorites: Seq<Link>,
    pub comments: Seq<CommentRecord>,
    pub next_comment_id: int,
}

impl View for Store {
    type V = StoreView;

    closed spec fn view(&self) -> StoreView {
        StoreView {
            password_key: self.password_key@,
            users: self.users@,
            articles: self.articles@,
            tags: self.tags@,
            follows: self.follows@,
            favorites: self.favorites@,
            comments: self.comments@,
            next_comment_id: self.next_comment_id as int,
        }
    }
}

/// Why a mutation of the store failed.
#[derive(Clone, Copy, Debug, PartialEq, Eq, Structural)]
pub enum StoreError {
    /// A row the operation needs does not exist, or belongs to someone else.
    NotFound,
    /// The username is taken.
    DuplicateUser,
    /// The email is taken.
    DuplicateEmail,
    /// An article with that slug exists.
    DuplicateSlug,
    /// No identifier is left for a new row.
    Exhausted,
    /// A comment needs a body.
    EmptyBody,
}

pub open spec fn link_is(l: Link, from: Seq<char>, to: Seq<char>) -> bool {
    l.from@ == from && l.to@ == to
}

pub open spec fn has_link(links: Seq<Link>, from: Seq<char>, to: Seq<char>) -> bool {
    exists|i: int| 0 <= i < links.len() && link_is(#[trigger] links[i], from, to)
}

pub open spec fn links_unique(links: Seq<Link>) -> bool {
    forall|i: int, j: int|
        0 <= i < j < links.len() ==> !link_is(#[trigger] links[i], (#[trigger] links[j]).from@, links[j].to@)
}

/// Number of rows pointing at `to`.
pub open spec fn count_to(links: Seq<Link>, to: Seq<char>) -> nat
    decreases links.len(),
{
    if links.len() == 0 {
        0
    } else {
        count_to(links.drop_last(), to) + if links.last().to@ == to {
            1nat
        } else {
            0nat
        }
    }
}

/// The `to` ends of the rows leaving `from`, in table order.
pub open spec fn targets_of(links: Seq<Link>, from: Seq<char>) -> Seq<Seq<char>>
    decreases links.len(),
{
    if links.len() == 0 {
        Seq::empty()
    } else if links.last().from@ == from {
        targets_of(links.drop_last(), from).push(links.last().to@)
    } else {
        targets_of(links.drop_last(), from)
    }
}

proof fn lemma_count_push(links: Seq<Link>, l: Link, to: Seq<char>)
    ensures
        count_to(links.push(l), to) == count_to(links, to) + if l.to@ == to {
            1nat
        } else {
            0nat
        },
{
    assert(links.push(l).drop_last() =~= links);
}

proof fn lemma_count_remove(links: Seq<Link>, i: int, to: Seq<char>)
    requires
        0 <= i < links.len(),
    ensures
        count_to(links, to) == count_to(links.remove(i), to) + if links[i].to@ == to {
            1nat
        } else {
            0nat
        },
    decreases links.len(),
{
    if i == links.len() - 1 {
        assert(links.remove(i) =~= links.drop_last());
    } else {
        lemma_count_remove(links.drop_last(), i, to);
        assert(links.remove(i).drop_last() =~= links.drop_last().remove(i));
        assert(links.remove(i).last() == links.last());
    }
}

proof fn lemma_has_link_push(links: Seq<Link>, l: Link, from: Seq<char>, to: Seq<char>)
    ensures
        has_link(links.push(l), from, to) == (has_link(links, from, to) || link_is(l, from, to)),
{
    if has_link(links, from, to) {
        let i = choose|i: int| 0 <= i < links.len() && link_is(links[i], from, to);
        assert(links.push(l)[i] == links[i]);
    }
    if link_is(l, from, to) {
        assert(links.push(l)[links.len() as int] == l);
    }
    if has_link(links.push(l), from, to) {
        let i = choose|i: int| 0 <= i < links.len() + 1 && link_is(links.push(l)[i], from, to);
        if i < links.len() {
            assert(links.push(l)[i] == links[i]);
        }
    }
}

proof fn lemma_has_link_remove(links: Seq<Link>, k: int, from: Seq<char>, to: Seq<char>)
    requires
        0 <= k < links.len(),
        links_unique(links),
    ensures
        has_link(links.remove(k), from, to) == (has_link(links, from, to) && !link_is(
            links[k],
            from,
            to,
        )),
        links_unique(links.remove(k)),
{
    let r = links.remove(k);
    assert forall|i: int| 0 <= i < r.len() implies r[i] == links[if i < k {
        i
    } else {
        i + 1
    }] by {}
    if has_link(r, from, to) {
        let i = choose|i: int| 0 <= i < r.len() && link_is(r[i], from, to);
        let j = if i < k {
            i
        } else {
            i + 1
        };
        assert(link_is(links[j], from, to));
        if link_is(links[k], from, to) {
            if j < k {
                assert(!link_is(links[j], links[k].from@, links[k].to@));
            } else {
                assert(!link_is(links[k], links[j].from@, links[j].to@));
            }
        }
    }
    if has_link(links, from, to) && !link_is(links[k], from, to) {
        let j = choose|j: int| 0 <= j < links.len() && link_is(links[j], from, to);
        let i = if j < k {
            j
        } else {
            j - 1
        };
        assert(r[i] == links[j]);
    }
    assert forall|i: int, j: int| 0 <= i < j < r.len() implies !link_is(
        #[trigger] r[i],
        (#[trigger] r[j]).from@,
        r[j].to@,
    ) by {
        let a = if i < k {
            i
        } else {
            i + 1
        };
        let b = if j < k {
            j
        } else {
            j + 1
        };
        assert(r[i] == links[a] && r[j] == links[b]);
    }
}

proof fn lemma_targets_linked(links: Seq<Link>, from: Seq<char>, t: Seq<char>)
    ensures
        targets_of(links, from).contains(t) ==> has_link(links, from, t),
    decreases links.len(),
{
    if links.len() > 0 {
        let rest = links.drop_last();
        lemma_targets_linked(rest, from, t);
        if targets_of(links, from).contains(t) {
            if links.last().from@ == from && links.last().to@ == t {
                assert(link_is(links[links.len() - 1], from, t));
            } else {
                if links.last().from@ == from {
                    let k = choose|k: int|
                        0 <= k < targets_of(links, from).len() && targets_of(links, from)[k] == t;
                    assert(k < targets_of(rest, from).len());
                    assert(targets_of(rest, from)[k] == t);
                }
                assert(targets_of(rest, from).contains(t));
                let i = choose|i: int| 0 <= i < rest.len() && link_is(rest[i], from, t);
                assert(links[i] == rest[i]);
            }
        }
    }
}

/// With unique rows, the targets of any `from` are distinct.
pub proof fn lemma_targets_distinct(links: Seq<Link>, from: Seq<char>)
    requires
        links_unique(links),
    ensures
        targets_of(links, from).no_duplicates(),
    decreases links.len(),
{
    if links.len() > 0 {
        let rest = links.drop_last();
        assert forall|i: int, j: int| 0 <= i < j < rest.len() implies !link_is(
            #[trigger] rest[i],
            (#[trigger] rest[j]).from@,
            rest[j].to@,
        ) by {
            assert(rest[i] == links[i] && rest[j] == links[j]);
        }
        lemma_targets_distinct(rest, from);
        if links.last().from@ == from {
            let t = links.last().to@;
            lemma_targets_linked(rest, from, t);
            if targets_of(rest, from).contains(t) {
                let i = choose|i: int| 0 <= i < rest.len() && link_is(rest[i], from, t);
                assert(links[i] == rest[i]);
                assert(!link_is(links[i], links[links.len() - 1].from@, links[links.len() - 1].to@));
            }
            let ts = targets_of(links, from);
            assert forall|a: int, b: int| 0 <= a < b < ts.len() implies ts[a] != ts[b] by {
                if b == ts.len() - 1 {
                    assert(ts[a] == targets_of(rest, from)[a]);
                    assert(targets_of(rest, from).contains(ts[a]));
                }
            }
        }
    }
}

/// The position of the row `from` → `to`, if there is one.
fn find_link(links: &Vec<Link>, from: &str, to: &str) -> (r: Option<usize>)
    ensures
        match r {
            Some(i) => i < links@.len() && link_is(links@[i as int], from@, to@),
            None => !has_link(links@, from@, to@),
        },
{
    let mut i: usize = 0;
    while i < links.len()
        invariant
            i <= links@.len(),
            forall|j: int| 0 <= j < i ==> !link_is(#[trigger] links@[j], from@, to@),
        decreases links.len() - i,
    {
        if same_text(links[i].from.as_str(), from) && same_text(links[i].to.as_str(), to) {
            return Some(i);
        }
        i = i + 1;
    }
    None
}

/// How many rows point at `to`.
fn count_links_to(links: &Vec<Link>, to: &str) -> (r: u64)
    requires
        links@.len() <= u64::MAX,
    ensures
        r as nat == count_to(links@, to@),
{
    let mut n: u64 = 0;
    let mut i: usize = 0;
    while i < links.len()
        invariant
            i <= links@.len() <= u64::MAX,
            n as nat == count_to(links@.subrange(0, i as int), to@),
            n <= i,
        decreases links.len() - i,
    {
        assert(links@.subrange(0, i + 1).drop_last() =~= links@.subrange(0, i as int));
        if same_text(links[i].to.as_str(), to) {
            n = n + 1;
        }
        i = i + 1;
    }
    assert(links@.subrange(0, i as int) =~= links@);
    n
}

/// The `to` ends of the rows leaving `from`, in table order.
fn collect_targets(links: &Vec<Link>, from: &str) -> (r: Vec<String>)
    ensures
        r@.map_values(|s: String| s@) == targets_of(links@, from@),
{
    let mut out: Vec<String> = Vec::new();
    let mut i: usize = 0;
    while i < links.len()
        invariant
            i <= links@.len(),
            out@.map_values(|s: String| s@) == targets_of(links@.subrange(0, i as int), from@),
        decreases links.len() - i,
    {
        assert(links@.subrange(0, i + 1).drop_last() =~= links@.subrange(0, i as int));
        if same_text(links[i].from.as_str(), from) {
            out.push(links[i].to.clone());
            assert(out@.map_values(|s: String| s@) =~= targets_of(
                links@.subrange(0, i as int),
                from@,
            ).push(links@[i as int].to@));
        }
        i = i + 1;
    }
    assert(links@.subrange(0, i as int) =~= links@);
    out
}

pub open spec fn users_unique(users: Seq<UserRecord>) -> bool {
    forall|i: int, j: int|
        0 <= i < j < users.len() ==> (#[trigger] users[i]).username@ != (#[trigger] users[j]).username@
            && users[i].email@ != users[j].email@
}

pub open spec fn slugs_unique(articles: Seq<ArticleRecord>) -> bool {
    forall|i: int, j: int|
        0 <= i < j < articles.len() ==> (#[trigger] articles[i]).slug@ != (#[trigger] articles[j]).slug@
}

/// Articles are kept oldest first.
pub open spec fn oldest_first(articles: Seq<ArticleRecord>) -> bool {
    forall|i: int, j: int|
        0 <= i < j < articles.len() ==> (#[trigger] articles[i]).created_at <= (#[trigger] articles[j]).created_at
}

pub open spec fn comment_ids_fresh(comments: Seq<CommentRecord>, next: int) -> bool {
    &&& forall|i: int| 0 <= i < comments.len() ==> 0 < (#[trigger] comments[i]).id < next
    &&& forall|i: int, j: int|
        0 <= i < j < comments.len() ==> (#[trigger] comments[i]).id < (#[trigger] comments[j]).id
}

impl Store {
    /// Keys unique in every table, articles oldest first, comment ids fresh.
    pub open spec fn wf(&self) -> bool {
        &&& users_unique(self@.users)
        &&& slugs_unique(self@.articles)
        &&& oldest_first(self@.articles)
        &&& links_unique(self@.tags)
        &&& links_unique(self@.follows)
        &&& links_unique(self@.favorites)
        &&& self@.favorites.len() <= i64::MAX
        &&& comment_ids_fresh(self@.comments, self@.next_comment_id)
        &&& 0 < self@.next_comment_id
    }

    /// An empty store whose password digests are keyed with `password_key`.
    pub fn new(password_key: Vec<u8>) -> (r: Store)
        ensures
            r.wf(),
            r@.password_key == password_key@,
            r@.users.len() == 0,
            r@.articles.len() == 0,
            r@.tags.len() == 0,
            r@.follows.len() == 0,
            r@.favorites.len() == 0,
            r@.comments.len() == 0,
    {
        Store {
            password_key,
            users: Vec::new(),
            articles: Vec::new(),
            tags: Vec::new(),
            follows: Vec::new(),
            favorites: Vec::new(),
            comments: Vec::new(),
            next_comment_id: 1,
        }
    }
}

} // verus!
