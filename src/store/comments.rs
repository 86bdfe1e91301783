//! Comments on articles.
use vstd::prelude::*;

use crate::models::comment::Comment;
use crate::text::{opt_text, owned, same_text};
use super::{CommentRecord, Store, StoreError, StoreView};
use super::listing::{image_of, slug_taken};
use super::users::user_named;

verus! {

/// The comments on `article`, in order of posting.
pub open spec fn comments_on(comments: Seq<CommentRecord>, article: Seq<char>) -> Seq<CommentRecord>
    decreases comments.len(),
{
    if comments.len() == 0 {
        Seq::empty()
    } else if comments.last().article@ == article {
        comments_on(comments.drop_last(), article).push(comments.last())
    } else {
        comments_on(comments.drop_last(), article)
    }
}

/// `c` shows the stored comment `rec`, with its author's image.
pub open spec fn comment_is(s: StoreView, rec: CommentRecord, c: Comment) -> bool {
    &&& c.id == rec.id
    &&& c.article@ == rec.article@
    &&& c.username@ == rec.username@
    &&& c.body@ == rec.body@
    &&& c.created_at == rec.created_at
    &&& opt_text(c.user_image) == image_of(s.users, rec.username@)
}

impl Store {
    /// Posts a comment of `username` on `article`, dated `now`; returns its id.
    pub fn insert_comment(&mut self, article: &str, username: &str, body: &str, now: u64) -> (r:
        Result<i32, StoreError>)
        requires
            old(self).wf(),
        ensures
            final(self).wf(),
            !(slug_taken(old(self)@.articles, article@) && user_named(old(self)@.users, username@))
                ==> r == Err::<i32, StoreError>(StoreError::NotFound),
            slug_taken(old(self)@.articles, article@) && user_named(old(self)@.users, username@)
                && body@.len() == 0 ==> r == Err::<i32, StoreError>(StoreError::EmptyBody),
            slug_taken(old(self)@.articles, article@) && user_named(old(self)@.users, username@)
                && body@.len() > 0 ==> (r is Err <==> old(self)@.next_comment_id == i32::MAX),
            r is Err ==> final(self)@ == old(self)@,
            r matches Ok(id) ==> id == old(self)@.next_comment_id && final(self)@ == (StoreView {
                comments: old(self)@.comments.push(final(self)@.comments.last()),
                next_comment_id: old(self)@.next_comment_id + 1,
                ..old(self)@
            }) && final(self)@.comments.last().id == id && final(self)@.comments.last().article@
                == article@ && final(self)@.comments.last().username@ == username@
                && final(self)@.comments.last().body@ == body@ && final(self)@.comments.last().created_at
                == now,
    {
        if self.find_article(article).is_none() || self.find_user(username).is_none() {
            return Err(StoreError::NotFound);
        }
        if body.unicode_len() == 0 {
            return Err(StoreError::EmptyBody);
        }
        if self.next_comment_id == i32::MAX {
            return Err(StoreError::Exhausted);
        }
        let id = self.next_comment_id;
        let rec = CommentRecord {
            id,
            article: owned(article),
            username: owned(username),
            body: owned(body),
            created_at: now,
        };
        let ghost before = self@.comments;
        self.comments.push(rec);
        self.next_comment_id = id + 1;
        proof {
            let cs = self@.comments;
            assert forall|a: int, b: int| 0 <= a < b < cs.len() implies (#[trigger] cs[a]).id < (
            #[trigger] cs[b]).id by {
                assert(cs[a] == before[a]);
            }
            assert forall|a: int| 0 <= a < cs.len() implies 0 < (#[trigger] cs[a]).id
                < self@.next_comment_id by {
                if a < before.len() {
                    assert(cs[a] == before[a]);
                }
            }
        }
        Ok(id)
    }

    /// The comments on `article`, in order of posting.
    pub fn comments_of(&self, article: &str) -> (r: Vec<Comment>)
        ensures
            r@.len() == comments_on(self@.comments, article@).len(),
            forall|k: int|
                0 <= k < r@.len() ==> comment_is(
                    self@,
                    comments_on(self@.comments, article@)[k],
                    #[trigger] r@[k],
                ),
    {
        let mut out: Vec<Comment> = Vec::new();
        let mut i: usize = 0;
        while i < self.comments.len()
            invariant
                i <= self@.comments.len(),
                self@.comments == self.comments@,
                out@.len() == comments_on(self@.comments.subrange(0, i as int), article@).len(),
                forall|k: int|
                    0 <= k < out@.len() ==> comment_is(
                        self@,
                        comments_on(self@.comments.subrange(0, i as int), article@)[k],
                        #[trigger] out@[k],
                    ),
            decreases self.comments.len() - i,
        {
            assert(self@.comments.subrange(0, i + 1).drop_last() =~= self@.comments.subrange(
                0,
                i as int,
            ));
            let c = &self.comments[i];
            if same_text(c.article.as_str(), article) {
                let shown = Comment {
                    id: c.id,
                    article: c.article.clone(),
                    username: c.username.clone(),
                    body: c.body.clone(),
                    created_at: c.created_at,
                    user_image: self.image_of_user(c.username.as_str()),
                };
                out.push(shown);
            }
            i = i + 1;
        }
        assert(self@.comments.subrange(0, i as int) =~= self@.comments);
        out
    }

    /// Deletes comment `id` if `username` wrote it.
    pub fn delete_comment(&mut self, id: i32, username: &str) -> (r: Result<(), StoreError>)
        requires
            old(self).wf(),
        ensures
            final(self).wf(),
            r is Ok <==> exists|i: int|
                0 <= i < old(self)@.comments.len() && (#[trigger] old(self)@.comments[i]).id == id
                    && old(self)@.comments[i].username@ == username@,
            r is Err ==> r == Err::<(), StoreError>(StoreError::NotFound) && final(self)@ == old(
                self,
            )@,
            r is Ok ==> exists|i: int|
                0 <= i < old(self)@.comments.len() && (#[trigger] old(self)@.comments[i]).id == id
                    && final(self)@ == (StoreView {
                    comments: old(self)@.comments.remove(i),
                    ..old(self)@
                }),
    {
        let ghost before = self@.comments;
        let mut i: usize = 0;
        while i < self.comments.len()
            invariant
                i <= self@.comments.len(),
                self@.comments == self.comments@,
                self@ == old(self)@,
                before == old(self)@.comments,
                self.wf(),
                forall|j: int| 0 <= j < i ==> (#[trigger] self@.comments[j]).id != id,
            decreases self.comments.len() - i,
        {
            if self.comments[i].id == id {
                if !same_text(self.comments[i].username.as_str(), username) {
                    proof {
                        assert forall|j: int|
                            0 <= j < before.len() && (#[trigger] before[j]).id == id implies before[j].username@
                            != username@ by {
                            if j != i {
                                if j < i {
                                    assert(before[j].id < before[i as int].id);
                                } else {
                                    assert(before[i as int].id < before[j].id);
                                }
                            }
                        }
                    }
                    return Err(StoreError::NotFound);
                }
                self.comments.remove(i);
                proof {
                    let cs = self@.comments;
                    assert(cs =~= before.remove(i as int));
                    assert forall|a: int| 0 <= a < cs.len() implies cs[a] == before[if a < i {
                        a
                    } else {
                        a + 1
                    }] by {}
                    assert forall|a: int, b: int| 0 <= a < b < cs.len() implies (#[trigger] cs[a]).id
                        < (#[trigger] cs[b]).id by {
                        let a0 = if a < i {
                            a
                        } else {
                            a + 1
                        };
                        let b0 = if b < i {
                            b
                        } else {
                            b + 1
                        };
                        assert(before[a0].id < before[b0].id);
                    }
                    assert forall|a: int| 0 <= a < cs.len() implies 0 < (#[trigger] cs[a]).id
                        < self@.next_comment_id by {
                        let a0 = if a < i {
                            a
                        } else {
                            a + 1
                        };
                        assert(cs[a] == before[a0]);
                    }
                }
                return Ok(());
            }
            i = i + 1;
        }
        Err(StoreError::NotFound)
    }
}

} // verus!
