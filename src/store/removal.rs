//! Deleting an article with what hangs on it.
use vstd::prelude::*;

use crate::text::same_text;
use super::{
    CommentRecord, Link, Store, StoreError, StoreView, has_link, lemma_has_link_push, link_is,
    links_unique, targets_of,
};
use super::listing::{slug_taken, texts};
use super::saving::{copy_link, owned_by};

verus! {

impl Store {
    /// Deletes the article `slug` if `author` wrote it, with its tags,
    /// favorites and comments.
    pub fn delete_article(&mut self, slug: &str, author: &str) -> (r: Result<(), StoreError>)
        requires
            old(self).wf(),
        ensures
            final(self).wf(),
            r is Ok <==> owned_by(old(self)@.articles, slug@, author@),
            r is Err ==> r == Err::<(), StoreError>(StoreError::NotFound) && final(self)@ == old(
                self,
            )@,
            r is Ok ==> exists|i: int|
                0 <= i < old(self)@.articles.len() && (#[trigger] old(self)@.articles[i]).slug@
                    == slug@ && final(self)@.articles == old(self)@.articles.remove(i),
            r is Ok ==> !slug_taken(final(self)@.articles, slug@),
            r is Ok ==> targets_of(final(self)@.tags, slug@).len() == 0,
            r is Ok ==> forall|o: Seq<char>|
                o != slug@ ==> #[trigger] targets_of(final(self)@.tags, o) == targets_of(
                    old(self)@.tags,
                    o,
                ),
            r is Ok ==> forall|f: Seq<char>, t: Seq<char>|
                #[trigger] has_link(final(self)@.favorites, f, t) == (has_link(
                    old(self)@.favorites,
                    f,
                    t,
                ) && t != slug@),
            r is Ok ==> forall|k: int|
                0 <= k < final(self)@.comments.len() ==> (
                #[trigger] final(self)@.comments[k]).article@ != slug@,
            r is Ok ==> final(self)@.users == old(self)@.users && final(self)@.follows == old(
                self,
            )@.follows && final(self)@.password_key == old(self)@.password_key,
    {
        let i = match self.find_article(slug) {
            Some(i) => i,
            None => return Err(StoreError::NotFound),
        };
        if !same_text(self.articles[i].author.as_str(), author) {
            proof {
                let arts = self@.articles;
                assert forall|j: int|
                    0 <= j < arts.len() && (#[trigger] arts[j]).slug@ == slug@ implies arts[j].author@
                    != author@ by {
                    if j < i {
                        assert(arts[j].slug@ != arts[i as int].slug@);
                    } else if j > i {
                        assert(arts[i as int].slug@ != arts[j].slug@);
                    }
                }
            }
            return Err(StoreError::NotFound);
        }
        let ghost old_articles = self@.articles;
        self.articles.remove(i);
        proof {
            let arts = self@.articles;
            assert forall|a: int| 0 <= a < arts.len() implies arts[a] == old_articles[if a < i {
                a
            } else {
                a + 1
            }] by {}
            assert forall|a: int, b: int| 0 <= a < b < arts.len() implies (#[trigger] arts[a]).slug@
                != (#[trigger] arts[b]).slug@ && arts[a].created_at <= arts[b].created_at by {
                let a0 = if a < i {
                    a
                } else {
                    a + 1
                };
                let b0 = if b < i {
                    b
                } else {
                    b + 1
                };
                assert(old_articles[a0].slug@ != old_articles[b0].slug@);
                assert(old_articles[a0].created_at <= old_articles[b0].created_at);
            }
            assert forall|a: int, b: int| 0 <= a < b < arts.len() implies (#[trigger] arts[a]).created_at
                <= (#[trigger] arts[b]).created_at by {
                assert(arts[a].slug@ != arts[b].slug@ && arts[a].created_at <= arts[b].created_at);
            }
            assert forall|a: int| 0 <= a < arts.len() implies (#[trigger] arts[a]).slug@ != slug@ by {
                let a0 = if a < i {
                    a
                } else {
                    a + 1
                };
                if a0 < i {
                    assert(old_articles[a0].slug@ != old_articles[i as int].slug@);
                } else {
                    assert(old_articles[i as int].slug@ != old_articles[a0].slug@);
                }
            }
        }
        let no_tags: Vec<String> = Vec::new();
        self.replace_tags(slug, &no_tags);
        assert(texts(no_tags@) =~= Seq::<Seq<char>>::empty());
        self.drop_favorites_of(slug);
        self.drop_comments_on(slug);
        Ok(())
    }

    fn drop_favorites_of(&mut self, slug: &str)
        requires
            old(self).wf(),
        ensures
            final(self).wf(),
            final(self)@ == (StoreView { favorites: final(self)@.favorites, ..old(self)@ }),
            forall|f: Seq<char>, t: Seq<char>|
                #[trigger] has_link(final(self)@.favorites, f, t) == (has_link(
                    old(self)@.favorites,
                    f,
                    t,
                ) && t != slug@),
    {
        let ghost favs = self@.favorites;
        let mut kept: Vec<Link> = Vec::new();
        let mut i: usize = 0;
        while i < self.favorites.len()
            invariant
                i <= favs.len(),
                self@ == old(self)@,
                favs == self@.favorites,
                favs == self.favorites@,
                links_unique(favs),
                kept@.len() <= i,
                forall|k: int|
                    0 <= k < kept@.len() ==> exists|j: int|
                        0 <= j < i && link_is(#[trigger] kept@[k], favs[j].from@, favs[j].to@),
                links_unique(kept@),
                forall|f: Seq<char>, t: Seq<char>|
                    #[trigger] has_link(kept@, f, t) == (has_link(favs.subrange(0, i as int), f, t)
                        && t != slug@),
            decreases favs.len() - i,
        {
            let ghost before = kept@;
            let ghost pre = favs.subrange(0, i as int);
            let ghost post = favs.subrange(0, i + 1);
            assert(post =~= pre.push(favs[i as int]));
            proof {
                assert forall|f: Seq<char>, t: Seq<char>| #[trigger] has_link(post, f, t) == (
                has_link(pre, f, t) || link_is(favs[i as int], f, t)) by {
                    lemma_has_link_push(pre, favs[i as int], f, t);
                }
            }
            if !same_text(self.favorites[i].to.as_str(), slug) {
                let l = copy_link(&self.favorites[i]);
                kept.push(l);
                proof {
                    assert forall|f: Seq<char>, t: Seq<char>| #[trigger] has_link(kept@, f, t) == (
                    has_link(before, f, t) || link_is(l, f, t)) by {
                        lemma_has_link_push(before, l, f, t);
                    }
                    assert forall|a: int, b: int| 0 <= a < b < kept@.len() implies !link_is(
                        #[trigger] kept@[a],
                        (#[trigger] kept@[b]).from@,
                        kept@[b].to@,
                    ) by {
                        if b == before.len() {
                            assert(kept@[a] == before[a]);
                            let j = choose|j: int|
                                0 <= j < i && link_is(before[a], favs[j].from@, favs[j].to@);
                            assert(!link_is(favs[j], favs[i as int].from@, favs[i as int].to@));
                        } else {
                            assert(kept@[a] == before[a] && kept@[b] == before[b]);
                        }
                    }
                    assert forall|k: int| 0 <= k < kept@.len() implies exists|j: int|
                        0 <= j < i + 1 && link_is(#[trigger] kept@[k], favs[j].from@, favs[j].to@) by {
                        if k < before.len() {
                            assert(kept@[k] == before[k]);
                            let j = choose|j: int|
                                0 <= j < i && link_is(before[k], favs[j].from@, favs[j].to@);
                            assert(0 <= j < i + 1 && link_is(kept@[k], favs[j].from@, favs[j].to@));
                        } else {
                            assert(link_is(kept@[k], favs[i as int].from@, favs[i as int].to@));
                        }
                    }
                }
            } else {
                proof {
                    assert forall|k: int| 0 <= k < kept@.len() implies exists|j: int|
                        0 <= j < i + 1 && link_is(#[trigger] kept@[k], favs[j].from@, favs[j].to@) by {
                        let j = choose|j: int|
                            0 <= j < i && link_is(kept@[k], favs[j].from@, favs[j].to@);
                        assert(0 <= j < i + 1 && link_is(kept@[k], favs[j].from@, favs[j].to@));
                    }
                }
            }
            i = i + 1;
        }
        assert(favs.subrange(0, i as int) =~= favs);
        self.favorites = kept;
    }

    fn drop_comments_on(&mut self, slug: &str)
        requires
            old(self).wf(),
        ensures
            final(self).wf(),
            final(self)@ == (StoreView { comments: final(self)@.comments, ..old(self)@ }),
            forall|k: int|
                0 <= k < final(self)@.comments.len() ==> (#[trigger] final(self)@.comments[k]).article@
                    != slug@,
    {
        let ghost cs = self@.comments;
        let mut kept: Vec<CommentRecord> = Vec::new();
        let mut i: usize = 0;
        while i < self.comments.len()
            invariant
                i <= cs.len(),
                self@ == old(self)@,
                cs == self@.comments,
                cs == self.comments@,
                old(self).wf(),
                forall|k: int|
                    0 <= k < kept@.len() ==> (#[trigger] kept@[k]).article@ != slug@ && 0 < kept@[k].id
                        < self@.next_comment_id,
                forall|a: int, b: int|
                    0 <= a < b < kept@.len() ==> (#[trigger] kept@[a]).id < (#[trigger] kept@[b]).id,
                kept@.len() > 0 ==> exists|j: int| 0 <= j < i && kept@.last().id == cs[j].id,
            decreases cs.len() - i,
        {
            let c = &self.comments[i];
            if !same_text(c.article.as_str(), slug) {
                let ghost before = kept@;
                let copy = CommentRecord {
                    id: c.id,
                    article: c.article.clone(),
                    username: c.username.clone(),
                    body: c.body.clone(),
                    created_at: c.created_at,
                };
                kept.push(copy);
                proof {
                    if before.len() > 0 {
                        let j = choose|j: int| 0 <= j < i && before.last().id == cs[j].id;
                        assert(cs[j].id < cs[i as int].id);
                        assert forall|a: int, b: int| 0 <= a < b < kept@.len() implies (
                        #[trigger] kept@[a]).id < (#[trigger] kept@[b]).id by {
                            if b == before.len() {
                                assert(kept@[a] == before[a]);
                                if a < before.len() - 1 {
                                    assert(before[a].id < before[before.len() - 1].id);
                                }
                            } else {
                                assert(kept@[a] == before[a] && kept@[b] == before[b]);
                            }
                        }
                    }
                    assert forall|k: int| 0 <= k < kept@.len() implies (#[trigger] kept@[k]).article@
                        != slug@ && 0 < kept@[k].id < self@.next_comment_id by {
                        if k < before.len() {
                            assert(kept@[k] == before[k]);
                        }
                    }
                }
            }
            i = i + 1;
        }
        self.comments = kept;
    }
}

} // verus!
