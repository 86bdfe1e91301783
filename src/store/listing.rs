//! Queries: the feed, profile lists, single articles and the tags in use.
use vstd::prelude::*;

use crate::editor::{contains_text, dedup_onto};
use crate::models::article::Article;
use crate::models::pagination::{Pagination, PaginationView};
use crate::models::user::UserPreview;
use crate::text::{opt_text, owned, same_text};
use super::{
    ArticleRecord, Link, Store, StoreView, UserRecord, collect_targets, count_links_to, count_to,
    find_link, has_link, lemma_targets_distinct, oldest_first, targets_of,
};

verus! {

/// An article with that slug exists.
pub open spec fn slug_taken(articles: Seq<ArticleRecord>, slug: Seq<char>) -> bool {
    exists|i: int| 0 <= i < articles.len() && (#[trigger] articles[i]).slug@ == slug
}

/// The image of the last user record named `name`.
pub open spec fn image_of(users: Seq<UserRecord>, name: Seq<char>) -> Option<Seq<char>>
    decreases users.len(),
{
    if users.len() == 0 {
        None
    } else if users.last().username@ == name {
        opt_text(users.last().image)
    } else {
        image_of(users.drop_last(), name)
    }
}

pub open spec fn texts(v: Seq<String>) -> Seq<Seq<char>> {
    v.map_values(|t: String| t@)
}

/// `row` shows the stored article `a` to `viewer`; the body only where `with_body`.
pub open spec fn row_is(
    s: StoreView,
    a: ArticleRecord,
    viewer: Option<Seq<char>>,
    with_body: bool,
    row: Article,
) -> bool {
    &&& row.slug@ == a.slug@
    &&& row.title@ == a.title@
    &&& row.description@ == a.description@
    &&& row.created_at == a.created_at
    &&& opt_text(row.body) == if with_body {
        Some(a.body@)
    } else {
        None
    }
    &&& row.favorites_count as int == count_to(s.favorites, a.slug@)
    &&& texts(row.tag_list@) == targets_of(s.tags, a.slug@)
    &&& texts(row.tag_list@).no_duplicates()
    &&& row.author.username@ == a.author@
    &&& opt_text(row.author.image) == image_of(s.users, a.author@)
    &&& row.author.following == (viewer matches Some(v) && has_link(s.follows, v, a.author@))
    &&& row.fav == (viewer matches Some(v) && has_link(s.favorites, v, a.slug@))
}

/// Which articles a list shows.
pub enum Selector {
    /// Those with the tag (an empty tag: all) and, for a feed, by authors its owner follows.
    Feed { tag: Seq<char>, feed_of: Option<Seq<char>> },
    /// Those written by the user.
    AuthoredBy(Seq<char>),
    /// Those the user has favorited.
    FavoritedBy(Seq<char>),
}

/// Whether the selector keeps the article.
pub open spec fn selects(s: StoreView, a: ArticleRecord, f: Selector) -> bool {
    match f {
        Selector::Feed { tag, feed_of } => {
            &&& (tag.len() == 0 || has_link(s.tags, a.slug@, tag))
            &&& (feed_of matches Some(v) ==> has_link(s.follows, v, a.author@))
        },
        Selector::AuthoredBy(name) => a.author@ == name,
        Selector::FavoritedBy(name) => has_link(s.favorites, name, a.slug@),
    }
}

/// Positions in `[lo, hi)` of the listed articles, newest first.
pub open spec fn matching_between(
    s: StoreView,
    f: Selector,
    lo: int,
    hi: int,
) -> Seq<int>
    decreases hi - lo,
{
    if hi <= lo {
        Seq::empty()
    } else if selects(s, s.articles[hi - 1], f) {
        seq![hi - 1] + matching_between(s, f, lo, hi - 1)
    } else {
        matching_between(s, f, lo, hi - 1)
    }
}

/// Whose feed is asked for: only a present viewer can have one.
pub open spec fn feed_owner(p: PaginationView, viewer: Option<Seq<char>>) -> Option<Seq<char>> {
    if p.my_feed {
        viewer
    } else {
        None
    }
}

/// Positions of all articles that the parameters select, newest first.
pub open spec fn selection(s: StoreView, p: PaginationView, viewer: Option<Seq<char>>) -> Seq<int> {
    matching_between(
        s,
        Selector::Feed { tag: p.tag, feed_of: feed_owner(p, viewer) },
        0,
        s.articles.len() as int,
    )
}

/// The `page`-th run of `amount` entries of `all`; empty past the end.
pub open spec fn page_of<T>(all: Seq<T>, page: u32, amount: u32) -> Seq<T> {
    page_span(all, page as int * amount as int, amount as int)
}

proof fn lemma_matching_extend_low(
    s: StoreView,
    f: Selector,
    lo: int,
    hi: int,
)
    requires
        0 < lo <= hi <= s.articles.len(),
    ensures
        matching_between(s, f, lo - 1, hi) == matching_between(s, f, lo, hi)
            + if selects(s, s.articles[lo - 1], f) {
            seq![lo - 1]
        } else {
            Seq::<int>::empty()
        },
    decreases hi - lo,
{
    if hi == lo {
        assert(matching_between(s, f, lo - 1, lo - 1) =~= Seq::<int>::empty());
        if selects(s, s.articles[lo - 1], f) {
            assert(matching_between(s, f, lo - 1, hi) =~= seq![lo - 1]);
        }
        assert(matching_between(s, f, lo, hi) =~= Seq::<int>::empty());
    } else {
        lemma_matching_extend_low(s, f, lo, hi - 1);
        if selects(s, s.articles[hi - 1], f) {
            assert(matching_between(s, f, lo - 1, hi) =~= seq![hi - 1]
                + matching_between(s, f, lo - 1, hi - 1));
        }
        assert((seq![hi - 1] + matching_between(s, f, lo, hi - 1)) + (
        if selects(s, s.articles[lo - 1], f) {
            seq![lo - 1]
        } else {
            Seq::<int>::empty()
        }) =~= seq![hi - 1] + (matching_between(s, f, lo, hi - 1) + (
        if selects(s, s.articles[lo - 1], f) {
            seq![lo - 1]
        } else {
            Seq::<int>::empty()
        })));
    }
}

/// The positions are in `[lo, hi)`, strictly decreasing, and listed.
proof fn lemma_matching_shape(s: StoreView, f: Selector, lo: int, hi: int)
    requires
        0 <= lo,
        hi <= s.articles.len(),
    ensures
        forall|k: int|
            0 <= k < matching_between(s, f, lo, hi).len() ==> lo <= (
            #[trigger] matching_between(s, f, lo, hi)[k]) < hi && selects(
                s,
                s.articles[matching_between(s, f, lo, hi)[k]],
                f,
            ),
        forall|k: int, l: int|
            0 <= k < l < matching_between(s, f, lo, hi).len() ==> (
            #[trigger] matching_between(s, f, lo, hi)[k]) > (#[trigger] matching_between(
                s,
                f,
                lo,
                hi,
            )[l]),
    decreases hi - lo,
{
    if hi > lo {
        lemma_matching_shape(s, f, lo, hi - 1);
        let m = matching_between(s, f, lo, hi);
        let r = matching_between(s, f, lo, hi - 1);
        if selects(s, s.articles[hi - 1], f) {
            assert forall|k: int| 0 < k < m.len() implies m[k] == r[k - 1] by {}
        }
    }
}

impl Store {
    pub(super) fn find_article(&self, slug: &str) -> (r: Option<usize>)
        ensures
            match r {
                Some(i) => i < self@.articles.len() && self@.articles[i as int].slug@ == slug@,
                None => !slug_taken(self@.articles, slug@),
            },
    {
        let mut i: usize = 0;
        while i < self.articles.len()
            invariant
                i <= self@.articles.len(),
                self@.articles == self.articles@,
                forall|j: int| 0 <= j < i ==> (#[trigger] self@.articles[j]).slug@ != slug@,
            decreases self.articles.len() - i,
        {
            if same_text(self.articles[i].slug.as_str(), slug) {
                return Some(i);
            }
            i = i + 1;
        }
        None
    }

    pub(super) fn image_of_user(&self, name: &str) -> (r: Option<String>)
        ensures
            opt_text(r) == image_of(self@.users, name@),
    {
        let mut i: usize = self.users.len();
        assert(self@.users.subrange(0, i as int) =~= self@.users);
        while i > 0
            invariant
                i <= self@.users.len(),
                self@.users == self.users@,
                image_of(self@.users, name@) == image_of(self@.users.subrange(0, i as int), name@),
            decreases i,
        {
            assert(self@.users.subrange(0, i as int).drop_last() =~= self@.users.subrange(
                0,
                i - 1,
            ));
            if same_text(self.users[i - 1].username.as_str(), name) {
                return self.users[i - 1].image.clone();
            }
            i = i - 1;
        }
        None
    }

    /// The article at position `i` as `viewer` sees it.
    fn row(&self, i: usize, viewer: &Option<String>, with_body: bool) -> (r: Article)
        requires
            self.wf(),
            i < self@.articles.len(),
        ensures
            row_is(self@, self@.articles[i as int], opt_text(*viewer), with_body, r),
    {
        let a = &self.articles[i];
        let count = count_links_to(&self.favorites, a.slug.as_str());
        let (following, fav) = match viewer {
            Some(v) => (
                find_link(&self.follows, v.as_str(), a.author.as_str()).is_some(),
                find_link(&self.favorites, v.as_str(), a.slug.as_str()).is_some(),
            ),
            None => (false, false),
        };
        let tags = collect_targets(&self.tags, a.slug.as_str());
        proof {
            lemma_targets_distinct(self@.tags, a.slug@);
            assert(count_to(self@.favorites, a.slug@) <= self@.favorites.len()) by {
                lemma_count_bound(self@.favorites, a.slug@);
            }
        }
        Article {
            slug: a.slug.clone(),
            title: a.title.clone(),
            body: if with_body {
                Some(a.body.clone())
            } else {
                None
            },
            description: a.description.clone(),
            created_at: a.created_at,
            favorites_count: count as i64,
            tag_list: tags,
            author: UserPreview {
                username: a.author.clone(),
                image: self.image_of_user(a.author.as_str()),
                following,
            },
            fav,
        }
    }

    fn selects_at(&self, i: usize, f: &Filter) -> (r: bool)
        requires
            i < self@.articles.len(),
        ensures
            r == selects(self@, self@.articles[i as int], f@),
    {
        let a = &self.articles[i];
        match f {
            Filter::Feed { tag, feed_of } => {
                let tag_ok = tag.as_str().unicode_len() == 0 || find_link(
                    &self.tags,
                    a.slug.as_str(),
                    tag.as_str(),
                ).is_some();
                if !tag_ok {
                    return false;
                }
                match feed_of {
                    Some(v) => find_link(&self.follows, v.as_str(), a.author.as_str()).is_some(),
                    None => true,
                }
            },
            Filter::AuthoredBy(name) => same_text(a.author.as_str(), name.as_str()),
            Filter::FavoritedBy(name) => find_link(
                &self.favorites,
                name.as_str(),
                a.slug.as_str(),
            ).is_some(),
        }
    }

    /// The selected articles from the `off`-th on, at most `amount`, newest first.
    fn collect_rows(&self, f: &Filter, off: u64, amount: u64, viewer: &Option<String>) -> (r: Vec<
        Article,
    >)
        requires
            self.wf(),
        ensures
            r@.len() == page_span(
                matching_between(self@, f@, 0, self@.articles.len() as int),
                off as int,
                amount as int,
            ).len(),
            forall|k: int|
                0 <= k < r@.len() ==> row_is(
                    self@,
                    self@.articles[page_span(
                        matching_between(self@, f@, 0, self@.articles.len() as int),
                        off as int,
                        amount as int,
                    )[k]],
                    opt_text(*viewer),
                    false,
                    #[trigger] r@[k],
                ),
    {
        let ghost n = self@.articles.len() as int;
        let mut rows: Vec<Article> = Vec::new();
        let mut seen: usize = 0;
        let mut i: usize = self.articles.len();
        while i > 0
            invariant
                self.wf(),
                i <= n == self@.articles.len() == self.articles.len(),
                seen as int == matching_between(self@, f@, i as int, n).len(),
                seen <= n - i,
                rows@.len() == if seen <= off {
                    0
                } else if seen - off < amount {
                    seen - off
                } else {
                    amount as int
                },
                forall|k: int|
                    0 <= k < rows@.len() ==> row_is(
                        self@,
                        self@.articles[matching_between(self@, f@, i as int, n)[off + k]],
                        opt_text(*viewer),
                        false,
                        #[trigger] rows@[k],
                    ),
            decreases i,
        {
            proof {
                lemma_matching_extend_low(self@, f@, i as int, n);
            }
            if self.selects_at(i - 1, f) {
                if seen as u64 >= off && (rows.len() as u64) < amount {
                    let row = self.row(i - 1, viewer, false);
                    rows.push(row);
                }
                seen = seen + 1;
            }
            i = i - 1;
        }
        rows
    }

    /// One page of articles, newest first (of two with the same date, the one
    /// saved later comes first), filtered by tag (an empty tag keeps
    /// all) and, when `my_feed` is set and a viewer is given, by the authors the
    /// viewer follows. Page `p` holds the selected articles `p * amount` up to
    /// `p * amount + amount`; a page past the end, or an amount of 0, is empty.
    pub fn list_articles(&self, p: &Pagination, viewer: &Option<String>) -> (r: Vec<Article>)
        requires
            self.wf(),
        ensures
            r@.len() == page_of(selection(self@, p@, opt_text(*viewer)), p@.page, p@.amount).len(),
            forall|k: int|
                0 <= k < r@.len() ==> row_is(
                    self@,
                    self@.articles[page_of(selection(self@, p@, opt_text(*viewer)), p@.page, p@.amount)[k]],
                    opt_text(*viewer),
                    false,
                    #[trigger] r@[k],
                ),
    {
        let feed_of: Option<String> = if p.get_my_feed() {
            viewer.clone()
        } else {
            None
        };
        let f = Filter::Feed { tag: owned(p.get_tag()), feed_of };
        let amount = p.get_amount() as u64;
        let page = p.get_page() as u64;
        assert(page * amount <= 0xffff_ffff * 0xffff_ffff) by (nonlinear_arith)
            requires
                page <= 0xffff_ffff,
                amount <= 0xffff_ffff,
        ;
        self.collect_rows(&f, page * amount, amount, viewer)
    }

    /// All articles of a profile, newest first: those `username` wrote, or,
    /// with `favourites`, those `username` has favorited.
    pub fn profile_articles(&self, username: &str, favourites: bool, viewer: &Option<String>) -> (r: Vec<Article>)
        requires
            self.wf(),
        ensures
            r@.len() == profile_selection(self@, username@, favourites).len(),
            forall|k: int|
                0 <= k < r@.len() ==> row_is(
                    self@,
                    self@.articles[profile_selection(self@, username@, favourites)[k]],
                    opt_text(*viewer),
                    false,
                    #[trigger] r@[k],
                ),
    {
        let f = if favourites {
            Filter::FavoritedBy(owned(username))
        } else {
            Filter::AuthoredBy(owned(username))
        };
        let ghost all = profile_selection(self@, username@, favourites);
        proof {
            lemma_matching_shape(self@, f@, 0, self@.articles.len() as int);
            assert(all.len() <= self@.articles.len()) by {
                lemma_matching_len(self@, f@, 0, self@.articles.len() as int);
            }
            assert(page_span(all, 0, self@.articles.len() as int) =~= all);
        }
        self.collect_rows(&f, 0, self.articles.len() as u64, viewer)
    }

    /// The article with that slug, body included, as `viewer` sees it.
    pub fn article(&self, slug: &str, viewer: &Option<String>) -> (r: Option<Article>)
        requires
            self.wf(),
        ensures
            r is None <==> !slug_taken(self@.articles, slug@),
            r matches Some(a) ==> exists|i: int|
                0 <= i < self@.articles.len() && (#[trigger] self@.articles[i]).slug@ == slug@
                    && row_is(self@, self@.articles[i], opt_text(*viewer), true, a),
    {
        match self.find_article(slug) {
            Some(i) => Some(self.row(i, viewer, true)),
            None => None,
        }
    }
}

/// The articles of a profile: written by, or favorited by, the user.
pub open spec fn profile_selection(s: StoreView, username: Seq<char>, favourites: bool) -> Seq<int> {
    matching_between(
        s,
        if favourites {
            Selector::FavoritedBy(username)
        } else {
            Selector::AuthoredBy(username)
        },
        0,
        s.articles.len() as int,
    )
}

proof fn lemma_matching_len(s: StoreView, f: Selector, lo: int, hi: int)
    requires
        0 <= lo,
    ensures
        matching_between(s, f, lo, hi).len() <= if hi > lo {
            hi - lo
        } else {
            0
        },
    decreases hi - lo,
{
    if hi > lo {
        lemma_matching_len(s, f, lo, hi - 1);
    }
}

/// The executable form of a `Selector`.
pub enum Filter {
    Feed { tag: String, feed_of: Option<String> },
    AuthoredBy(String),
    FavoritedBy(String),
}

impl View for Filter {
    type V = Selector;

    open spec fn view(&self) -> Selector {
        match self {
            Filter::Feed { tag, feed_of } => Selector::Feed { tag: tag@, feed_of: opt_text(*feed_of) },
            Filter::AuthoredBy(name) => Selector::AuthoredBy(name@),
            Filter::FavoritedBy(name) => Selector::FavoritedBy(name@),
        }
    }
}

proof fn lemma_count_bound(links: Seq<Link>, to: Seq<char>)
    ensures
        count_to(links, to) <= links.len(),
    decreases links.len(),
{
    if links.len() > 0 {
        lemma_count_bound(links.drop_last(), to);
    }
}

/// A page of the feed has at most `amount` articles, newest first; a page past
/// the end is empty; and a page followed by the next is the run of the
/// selection that starts where the first begins.
pub proof fn lemma_feed_pages(s: StoreView, p: PaginationView, viewer: Option<Seq<char>>)
    requires
        oldest_first(s.articles),
    ensures
        page_of(selection(s, p, viewer), p.page, p.amount).len() <= p.amount,
        forall|k: int, l: int|
            0 <= k < l < page_of(selection(s, p, viewer), p.page, p.amount).len() ==> s.articles[
            #[trigger] page_of(selection(s, p, viewer), p.page, p.amount)[k]].created_at
                >= s.articles[#[trigger] page_of(selection(s, p, viewer), p.page, p.amount)[l]].created_at,
        p.page as int * p.amount as int >= selection(s, p, viewer).len() ==> page_of(
            selection(s, p, viewer),
            p.page,
            p.amount,
        ).len() == 0,
        p.page < u32::MAX ==> page_of(selection(s, p, viewer), p.page, p.amount) + page_of(
            selection(s, p, viewer),
            (p.page + 1) as u32,
            p.amount,
        ) == page_span(selection(s, p, viewer), p.page as int * p.amount as int, 2 * p.amount as int),
{
    let all = selection(s, p, viewer);
    lemma_matching_shape(
        s,
        Selector::Feed { tag: p.tag, feed_of: feed_owner(p, viewer) },
        0,
        s.articles.len() as int,
    );
    let pg = page_of(all, p.page, p.amount);
    let off = p.page as int * p.amount as int;
    assert forall|k: int, l: int| 0 <= k < l < pg.len() implies s.articles[#[trigger] pg[k]].created_at
        >= s.articles[#[trigger] pg[l]].created_at by {
        assert(pg[k] == all[off + k] && pg[l] == all[off + l]);
        assert(all[off + k] > all[off + l]);
    }
    if p.page < u32::MAX {
        let next = page_of(all, (p.page + 1) as u32, p.amount);
        assert((p.page + 1) as u32 as int * p.amount as int == off + p.amount) by (nonlinear_arith)
            requires
                p.page < u32::MAX,
                off == p.page as int * p.amount as int,
        ;
        assert(pg + next =~= page_span(all, off, 2 * p.amount as int));
    }
}

/// The entries of `all` from `off`, at most `len` of them.
pub open spec fn page_span<T>(all: Seq<T>, off: int, len: int) -> Seq<T> {
    if off >= all.len() {
        Seq::empty()
    } else {
        all.subrange(off, if off + len < all.len() {
            off + len
        } else {
            all.len() as int
        })
    }
}

/// The distinct tags in use, in order of first use.
pub open spec fn tags_in_use(tags: Seq<Link>) -> Seq<Seq<char>> {
    dedup_onto(Seq::empty(), tags.map_values(|l: Link| l.to@))
}

impl Store {
    /// Every tag used by some article, once each.
    pub fn all_tags(&self) -> (r: Vec<String>)
        ensures
            texts(r@) == tags_in_use(self@.tags),
    {
        let ghost all = self@.tags.map_values(|l: Link| l.to@);
        let mut out: Vec<String> = Vec::new();
        assert(texts(out@) =~= Seq::<Seq<char>>::empty());
        assert(all.subrange(0, all.len() as int) =~= all);
        let mut i: usize = 0;
        while i < self.tags.len()
            invariant
                i <= self@.tags.len(),
                self@.tags == self.tags@,
                all == self@.tags.map_values(|l: Link| l.to@),
                dedup_onto(texts(out@), all.subrange(i as int, all.len() as int)) == tags_in_use(
                    self@.tags,
                ),
            decreases self.tags.len() - i,
        {
            let ghost acc = texts(out@);
            let ghost rest = all.subrange(i as int, all.len() as int);
            assert(rest[0] == self@.tags[i as int].to@);
            assert(rest.drop_first() =~= all.subrange(i + 1, all.len() as int));
            let t = &self.tags[i].to;
            if !contains_text(&out, t.as_str()) {
                out.push(t.clone());
                assert(texts(out@) =~= acc.push(t@));
            }
            i = i + 1;
        }
        assert(all.subrange(i as int, all.len() as int) =~= Seq::<Seq<char>>::empty());
        out
    }
}

} // verus!
