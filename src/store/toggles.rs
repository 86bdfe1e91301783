//! Following users and favoriting articles.
use vstd::prelude::*;

use crate::text::owned;
use super::{
    Link, Store, StoreError, StoreView, count_to, find_link, has_link, lemma_count_push,
    lemma_count_remove, lemma_has_link_push, lemma_has_link_remove, link_is, links_unique,
};
use super::listing::slug_taken;
use super::users::user_named;

verus! {

/// `new` is `old` with the row `from` → `to` added (`on`) or taken out (`!on`),
/// whichever flips its presence; every other row stays.
pub open spec fn link_toggled(old: Seq<Link>, new: Seq<Link>, from: Seq<char>, to: Seq<char>, on: bool) -> bool {
    &&& on == !has_link(old, from, to)
    &&& has_link(new, from, to) == on
    &&& count_to(new, to) == if on {
        count_to(old, to) + 1int
    } else {
        count_to(old, to) - 1
    }
    &&& forall|f: Seq<char>, t: Seq<char>|
        !(f == from && t == to) ==> #[trigger] has_link(new, f, t) == has_link(old, f, t)
    &&& forall|t: Seq<char>| t != to ==> #[trigger] count_to(new, t) == count_to(old, t)
    &&& links_unique(new)
    &&& new.len() == if on {
        old.len() + 1int
    } else {
        old.len() - 1
    }
}

/// Adds the row `from` → `to` if it is absent, removes it if present; true when added.
fn toggle_link(links: &mut Vec<Link>, from: &str, to: &str) -> (r: bool)
    requires
        links_unique(old(links)@),
    ensures
        link_toggled(old(links)@, final(links)@, from@, to@, r),
{
    let ghost before = links@;
    match find_link(links, from, to) {
        Some(i) => {
            links.remove(i);
            proof {
                lemma_has_link_remove(before, i as int, from@, to@);
                lemma_count_remove(before, i as int, to@);
                assert forall|f: Seq<char>, t: Seq<char>| !(f == from@ && t == to@) implies #[trigger] has_link(
                    links@,
                    f,
                    t,
                ) == has_link(before, f, t) by {
                    lemma_has_link_remove(before, i as int, f, t);
                }
                assert forall|t: Seq<char>| t != to@ implies #[trigger] count_to(links@, t) == count_to(
                    before,
                    t,
                ) by {
                    lemma_count_remove(before, i as int, t);
                }
            }
            false
        },
        None => {
            let l = Link { from: owned(from), to: owned(to) };
            links.push(l);
            proof {
                lemma_has_link_push(before, l, from@, to@);
                lemma_count_push(before, l, to@);
                assert forall|f: Seq<char>, t: Seq<char>| !(f == from@ && t == to@) implies #[trigger] has_link(
                    links@,
                    f,
                    t,
                ) == has_link(before, f, t) by {
                    lemma_has_link_push(before, l, f, t);
                }
                assert forall|t: Seq<char>| t != to@ implies #[trigger] count_to(links@, t) == count_to(
                    before,
                    t,
                ) by {
                    lemma_count_push(before, l, t);
                }
                assert forall|a: int, b: int| 0 <= a < b < links@.len() implies !link_is(
                    #[trigger] links@[a],
                    (#[trigger] links@[b]).from@,
                    links@[b].to@,
                ) by {
                    if b == before.len() {
                        assert(links@[a] == before[a]);
                    } else {
                        assert(links@[a] == before[a] && links@[b] == before[b]);
                    }
                }
            }
            true
        },
    }
}

/// Toggling the same row twice gives back its presence and the count of rows
/// pointing at its target.
pub proof fn lemma_toggle_twice(
    l0: Seq<Link>,
    l1: Seq<Link>,
    l2: Seq<Link>,
    from: Seq<char>,
    to: Seq<char>,
    on1: bool,
    on2: bool,
)
    requires
        link_toggled(l0, l1, from, to, on1),
        link_toggled(l1, l2, from, to, on2),
    ensures
        has_link(l2, from, to) == has_link(l0, from, to),
        count_to(l2, to) == count_to(l0, to),
        on2 == !on1,
{
}

/// Favoriting an article twice in a row leaves the user's favorite state and
/// the article's favorites count as they were.
pub proof fn lemma_favorite_twice(
    s0: StoreView,
    s1: StoreView,
    s2: StoreView,
    username: Seq<char>,
    slug: Seq<char>,
    on1: bool,
    on2: bool,
)
    requires
        favorite_toggled(s0, s1, username, slug, on1),
        favorite_toggled(s1, s2, username, slug, on2),
    ensures
        has_link(s2.favorites, username, slug) == has_link(s0.favorites, username, slug),
        count_to(s2.favorites, slug) == count_to(s0.favorites, slug),
{
    lemma_toggle_twice(s0.favorites, s1.favorites, s2.favorites, username, slug, on1, on2);
}

/// `new` is `old` with the favorite of `username` on `slug` flipped to `on`.
pub open spec fn favorite_toggled(old: StoreView, new: StoreView, username: Seq<char>, slug: Seq<char>, on: bool) -> bool {
    &&& link_toggled(old.favorites, new.favorites, username, slug, on)
    &&& new == (StoreView { favorites: new.favorites, ..old })
}

/// `new` is `old` with the follow of `follower` on `followed` flipped to `on`.
pub open spec fn follow_toggled(old: StoreView, new: StoreView, follower: Seq<char>, followed: Seq<char>, on: bool) -> bool {
    &&& link_toggled(old.follows, new.follows, follower, followed, on)
    &&& new == (StoreView { follows: new.follows, ..old })
}

impl Store {
    /// Follows `other` as `current` if not yet following, unfollows otherwise;
    /// true when now following. Both users must exist.
    pub fn toggle_follow(&mut self, current: &str, other: &str) -> (r: Result<bool, StoreError>)
        requires
            old(self).wf(),
        ensures
            final(self).wf(),
            (user_named(old(self)@.users, current@) && user_named(old(self)@.users, other@))
                <==> r is Ok,
            r is Err ==> r == Err::<bool, StoreError>(StoreError::NotFound) && final(self)@ == old(
                self,
            )@,
            r matches Ok(on) ==> follow_toggled(old(self)@, final(self)@, current@, other@, on),
    {
        if self.find_user(current).is_none() || self.find_user(other).is_none() {
            return Err(StoreError::NotFound);
        }
        let on = toggle_link(&mut self.follows, current, other);
        Ok(on)
    }

    /// Favorites `slug` as `username` if not yet done, takes the favorite back
    /// otherwise; true when now favorited. The user and the article must exist.
    pub fn toggle_favorite(&mut self, slug: &str, username: &str) -> (r: Result<bool, StoreError>)
        requires
            old(self).wf(),
        ensures
            final(self).wf(),
            !(user_named(old(self)@.users, username@) && slug_taken(old(self)@.articles, slug@))
                ==> r == Err::<bool, StoreError>(StoreError::NotFound),
            (user_named(old(self)@.users, username@) && slug_taken(old(self)@.articles, slug@)) ==> (
            r is Err <==> !has_link(old(self)@.favorites, username@, slug@)
                && old(self)@.favorites.len() == i64::MAX),
            r is Err ==> final(self)@ == old(self)@,
            r == Err::<bool, StoreError>(StoreError::NotFound) ==> !(user_named(
                old(self)@.users,
                username@,
            ) && slug_taken(old(self)@.articles, slug@)),
            r is Err && r != Err::<bool, StoreError>(StoreError::NotFound) ==> r == Err::<
                bool,
                StoreError,
            >(StoreError::Exhausted),
            r matches Ok(on) ==> favorite_toggled(old(self)@, final(self)@, username@, slug@, on),
    {
        if self.find_user(username).is_none() || self.find_article(slug).is_none() {
            return Err(StoreError::NotFound);
        }
        if self.favorites.len() as u64 >= i64::MAX as u64 && find_link(
            &self.favorites,
            username,
            slug,
        ).is_none() {
            return Err(StoreError::Exhausted);
        }
        let on = toggle_link(&mut self.favorites, username, slug);
        Ok(on)
    }

    /// Whether `username` follows `other`.
    pub fn is_following(&self, username: &str, other: &str) -> (r: bool)
        ensures
            r == has_link(self@.follows, username@, other@),
    {
        find_link(&self.follows, username, other).is_some()
    }
}

} // verus!
