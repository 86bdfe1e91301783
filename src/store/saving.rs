//! Creating and updating articles with their tags.
use vstd::prelude::*;

use crate::editor::{ArticleUpdate, slug_of, slugify};
use crate::text::{owned, same_text};
use super::{
    ArticleRecord, Link, Store, StoreError, StoreView, link_is, links_unique, targets_of,
};
use super::listing::{slug_taken, texts};
use super::users::user_named;

verus! {

proof fn lemma_targets_push(links: Seq<Link>, l: Link)
    ensures
        forall|o: Seq<char>|
            #[trigger] targets_of(links.push(l), o) == if l.from@ == o {
                targets_of(links, o).push(l.to@)
            } else {
                targets_of(links, o)
            },
{
    assert(links.push(l).drop_last() =~= links);
}

pub(super) fn copy_link(l: &Link) -> (r: Link)
    ensures
        r.from@ == l.from@,
        r.to@ == l.to@,
{
    Link { from: l.from.clone(), to: l.to.clone() }
}

/// The stored fields of an article being saved.
pub open spec fn saved_fields(
    rec: ArticleRecord,
    slug: Seq<char>,
    author: Seq<char>,
    title: Seq<char>,
    description: Seq<char>,
    body: Seq<char>,
    created_at: u64,
) -> bool {
    &&& rec.slug@ == slug
    &&& rec.author@ == author
    &&& rec.title@ == title
    &&& rec.description@ == description
    &&& rec.body@ == body
    &&& rec.created_at == created_at
}

/// The date a new article gets: `now`, or the newest article's date if later.
pub open spec fn creation_date(articles: Seq<ArticleRecord>, now: u64) -> u64 {
    if articles.len() > 0 && articles.last().created_at > now {
        articles.last().created_at
    } else {
        now
    }
}

/// `new` is `old` after saving the article: with a slug, the article of that
/// slug written by `author` gets the new title, description and body; without
/// one, a new article under the title's slug is appended. Its tags become
/// `tags`; nothing else changes.
pub open spec fn article_saved(
    old: StoreView,
    new: StoreView,
    author: Seq<char>,
    slug: Seq<char>,
    title: Seq<char>,
    description: Seq<char>,
    body: Seq<char>,
    tags: Seq<Seq<char>>,
    now: u64,
) -> bool {
    &&& slug.len() > 0 ==> exists|i: int|
        0 <= i < old.articles.len() && (#[trigger] old.articles[i]).slug@ == slug
            && old.articles[i].author@ == author && new.articles == old.articles.update(
            i,
            new.articles[i],
        ) && saved_fields(
            new.articles[i],
            slug,
            author,
            title,
            description,
            body,
            old.articles[i].created_at,
        )
    &&& slug.len() == 0 ==> !slug_taken(old.articles, slug_of(title)) && new.articles
        == old.articles.push(new.articles.last()) && saved_fields(
        new.articles.last(),
        slug_of(title),
        author,
        title,
        description,
        body,
        creation_date(old.articles, now),
    )
    &&& new == (StoreView { articles: new.articles, tags: new.tags, ..old })
    &&& targets_of(new.tags, target_slug(slug, title)) == tags
    &&& forall|o: Seq<char>|
        o != target_slug(slug, title) ==> #[trigger] targets_of(new.tags, o) == targets_of(
            old.tags,
            o,
        )
}

/// The slug an article is saved under: the given one, or the title's.
pub open spec fn target_slug(slug: Seq<char>, title: Seq<char>) -> Seq<char> {
    if slug.len() > 0 {
        slug
    } else {
        slug_of(title)
    }
}

/// The article `slug` exists and was written by `author`.
pub open spec fn owned_by(articles: Seq<ArticleRecord>, slug: Seq<char>, author: Seq<char>) -> bool {
    exists|i: int|
        0 <= i < articles.len() && (#[trigger] articles[i]).slug@ == slug && articles[i].author@ == author
}

impl Store {
    /// Replaces the tags of `slug` by `tags`; the tags of other articles stay.
    pub(super) fn replace_tags(&mut self, slug: &str, tags: &Vec<String>)
        requires
            old(self).wf(),
            texts(tags@).no_duplicates(),
        ensures
            final(self).wf(),
            final(self)@ == (StoreView { tags: final(self)@.tags, ..old(self)@ }),
            targets_of(final(self)@.tags, slug@) == texts(tags@),
            forall|o: Seq<char>|
                o != slug@ ==> #[trigger] targets_of(final(self)@.tags, o) == targets_of(
                    old(self)@.tags,
                    o,
                ),
    {
        let ghost old_tags = self@.tags;
        let mut kept: Vec<Link> = Vec::new();
        let mut i: usize = 0;
        while i < self.tags.len()
            invariant
                i <= self@.tags.len(),
                self@ == old(self)@,
                old_tags == self@.tags,
                self@.tags == self.tags@,
                links_unique(old_tags),
                links_unique(kept@),
                forall|k: int|
                    0 <= k < kept@.len() ==> (#[trigger] kept@[k]).from@ != slug@ && exists|j: int|
                        0 <= j < i && link_is(kept@[k], old_tags[j].from@, old_tags[j].to@),
                targets_of(kept@, slug@) == Seq::<Seq<char>>::empty(),
                forall|o: Seq<char>|
                    o != slug@ ==> #[trigger] targets_of(kept@, o) == targets_of(
                        self@.tags.subrange(0, i as int),
                        o,
                    ),
            decreases self.tags.len() - i,
        {
            let ghost before = kept@;
            let ghost prefix = self@.tags.subrange(0, i + 1);
            assert(prefix.drop_last() =~= self@.tags.subrange(0, i as int));
            if !same_text(self.tags[i].from.as_str(), slug) {
                let l = copy_link(&self.tags[i]);
                kept.push(l);
                proof {
                    lemma_targets_push(before, l);
                    assert forall|a: int, b: int| 0 <= a < b < kept@.len() implies !link_is(
                        #[trigger] kept@[a],
                        (#[trigger] kept@[b]).from@,
                        kept@[b].to@,
                    ) by {
                        if b == before.len() {
                            assert(kept@[a] == before[a]);
                            let j = choose|j: int|
                                0 <= j < i && link_is(before[a], old_tags[j].from@, old_tags[j].to@);
                            assert(!link_is(old_tags[j], old_tags[i as int].from@, old_tags[i as int].to@));
                        } else {
                            assert(kept@[a] == before[a] && kept@[b] == before[b]);
                        }
                    }
                    assert forall|k: int| 0 <= k < kept@.len() implies (#[trigger] kept@[k]).from@
                        != slug@ && exists|j: int|
                        0 <= j < i + 1 && link_is(kept@[k], old_tags[j].from@, old_tags[j].to@) by {
                        if k < before.len() {
                            assert(kept@[k] == before[k]);
                            let j = choose|j: int|
                                0 <= j < i && link_is(before[k], old_tags[j].from@, old_tags[j].to@);
                            assert(0 <= j < i + 1 && link_is(kept@[k], old_tags[j].from@, old_tags[j].to@));
                        } else {
                            assert(link_is(kept@[k], old_tags[i as int].from@, old_tags[i as int].to@));
                        }
                    }
                }
            } else {
                proof {
                    assert forall|k: int| 0 <= k < kept@.len() implies (#[trigger] kept@[k]).from@
                        != slug@ && exists|j: int|
                        0 <= j < i + 1 && link_is(kept@[k], old_tags[j].from@, old_tags[j].to@) by {
                        let j = choose|j: int|
                            0 <= j < i && link_is(kept@[k], old_tags[j].from@, old_tags[j].to@);
                        assert(0 <= j < i + 1 && link_is(kept@[k], old_tags[j].from@, old_tags[j].to@));
                    }
                }
            }
            i = i + 1;
        }
        assert(self@.tags.subrange(0, i as int) =~= self@.tags);
        let ghost base = kept@;
        let mut j: usize = 0;
        while j < tags.len()
            invariant
                j <= tags@.len(),
                texts(tags@).no_duplicates(),
                kept@.len() == base.len() + j,
                forall|k: int| 0 <= k < base.len() ==> #[trigger] kept@[k] == base[k],
                forall|k: int| 0 <= k < base.len() ==> (#[trigger] base[k]).from@ != slug@,
                forall|k: int|
                    base.len() <= k < kept@.len() ==> (#[trigger] kept@[k]).from@ == slug@
                        && kept@[k].to@ == tags@[k - base.len()]@,
                links_unique(kept@),
                targets_of(kept@, slug@) == texts(tags@.subrange(0, j as int)),
                forall|o: Seq<char>|
                    o != slug@ ==> #[trigger] targets_of(kept@, o) == targets_of(base, o),
            decreases tags.len() - j,
        {
            let ghost before = kept@;
            let l = Link { from: owned(slug), to: tags[j].clone() };
            kept.push(l);
            proof {
                lemma_targets_push(before, l);
                assert(tags@.subrange(0, j + 1) =~= tags@.subrange(0, j as int).push(tags@[j as int]));
                assert(texts(tags@.subrange(0, j + 1)) =~= texts(tags@.subrange(0, j as int)).push(
                    tags@[j as int]@,
                ));
                assert forall|a: int, b: int| 0 <= a < b < kept@.len() implies !link_is(
                    #[trigger] kept@[a],
                    (#[trigger] kept@[b]).from@,
                    kept@[b].to@,
                ) by {
                    if b == before.len() {
                        assert(kept@[a] == before[a]);
                        if a < base.len() {
                            assert(before[a] == base[a]);
                        } else {
                            let x = a - base.len();
                            assert(texts(tags@)[x] == tags@[x]@);
                            assert(texts(tags@)[j as int] == tags@[j as int]@);
                        }
                    } else {
                        assert(kept@[a] == before[a] && kept@[b] == before[b]);
                    }
                }
            }
            j = j + 1;
        }
        assert(tags@.subrange(0, j as int) =~= tags@);
        self.tags = kept;
    }

    /// Saves an article of `author` and replaces its tags by `upd.tag_list`.
    /// With a slug, the article of that slug is updated if `author` wrote it;
    /// without one, a new article is created under the slug of its title and
    /// dated `now`, or the newest article's date if that is later, so that the
    /// store stays ordered. Returns the slug.
    pub fn save_article(&mut self, author: &str, slug: &str, upd: &ArticleUpdate, now: u64) -> (r:
        Result<String, StoreError>)
        requires
            old(self).wf(),
            upd.wf(),
        ensures
            final(self).wf(),
            !user_named(old(self)@.users, author@) ==> r == Err::<String, StoreError>(
                StoreError::NotFound,
            ),
            user_named(old(self)@.users, author@) && slug@.len() > 0 && !owned_by(
                old(self)@.articles,
                slug@,
                author@,
            ) ==> r == Err::<String, StoreError>(StoreError::NotFound),
            user_named(old(self)@.users, author@) && slug@.len() == 0 && slug_taken(
                old(self)@.articles,
                slug_of(upd.title@),
            ) ==> r == Err::<String, StoreError>(StoreError::DuplicateSlug),
            r is Err ==> final(self)@ == old(self)@,
            r is Err ==> !user_named(old(self)@.users, author@) || (slug@.len() > 0 && !owned_by(
                old(self)@.articles,
                slug@,
                author@,
            )) || (slug@.len() == 0 && slug_taken(old(self)@.articles, slug_of(upd.title@))),
            r is Ok ==> user_named(old(self)@.users, author@),
            r matches Ok(sl) ==> sl@ == target_slug(slug@, upd.title@),
            r is Ok ==> article_saved(
                old(self)@,
                final(self)@,
                author@,
                slug@,
                upd.title@,
                upd.description@,
                upd.body@,
                texts(upd.tag_list@),
                now,
            ),
    {
        if self.find_user(author).is_none() {
            return Err(StoreError::NotFound);
        }
        let ghost old_articles = self@.articles;
        let saved: String;
        if slug.unicode_len() > 0 {
            let i = match self.find_article(slug) {
                Some(i) => i,
                None => return Err(StoreError::NotFound),
            };
            if !same_text(self.articles[i].author.as_str(), author) {
                proof {
                    assert forall|j: int|
                        0 <= j < old_articles.len() && (#[trigger] old_articles[j]).slug@ == slug@ implies old_articles[j].author@
                        != author@ by {
                        if j != i {
                            if j < i {
                                assert(old_articles[j].slug@ != old_articles[i as int].slug@);
                            } else {
                                assert(old_articles[i as int].slug@ != old_articles[j].slug@);
                            }
                        }
                    }
                }
                return Err(StoreError::NotFound);
            }
            let rec = ArticleRecord {
                slug: owned(slug),
                title: upd.title.clone(),
                description: upd.description.clone(),
                body: upd.body.clone(),
                author: owned(author),
                created_at: self.articles[i].created_at,
            };
            self.articles.set(i, rec);
            proof {
                let arts = self@.articles;
                assert(arts =~= old_articles.update(i as int, arts[i as int]));
                assert forall|a: int, b: int| 0 <= a < b < arts.len() implies (#[trigger] arts[a]).slug@
                    != (#[trigger] arts[b]).slug@ by {
                    assert(old_articles[a].slug@ != old_articles[b].slug@);
                }
                assert forall|a: int, b: int| 0 <= a < b < arts.len() implies (#[trigger] arts[a]).created_at
                    <= (#[trigger] arts[b]).created_at by {
                    assert(old_articles[a].created_at <= old_articles[b].created_at);
                }
            }
            saved = owned(slug);
        } else {
            let new_slug = slugify(upd.title.as_str());
            if self.find_article(new_slug.as_str()).is_some() {
                return Err(StoreError::DuplicateSlug);
            }
            let n = self.articles.len();
            let created_at = if n > 0 && self.articles[n - 1].created_at > now {
                self.articles[n - 1].created_at
            } else {
                now
            };
            let rec = ArticleRecord {
                slug: new_slug.clone(),
                title: upd.title.clone(),
                description: upd.description.clone(),
                body: upd.body.clone(),
                author: owned(author),
                created_at,
            };
            self.articles.push(rec);
            proof {
                let arts = self@.articles;
                assert forall|a: int, b: int| 0 <= a < b < arts.len() implies (#[trigger] arts[a]).slug@
                    != (#[trigger] arts[b]).slug@ by {
                    if b == n {
                        assert(arts[a] == old_articles[a]);
                    } else {
                        assert(old_articles[a].slug@ != old_articles[b].slug@);
                    }
                }
                assert forall|a: int, b: int| 0 <= a < b < arts.len() implies (#[trigger] arts[a]).created_at
                    <= (#[trigger] arts[b]).created_at by {
                    if b == n {
                        assert(arts[a] == old_articles[a]);
                        if a < n - 1 {
                            assert(old_articles[a].created_at <= old_articles[n - 1].created_at);
                        }
                    } else {
                        assert(old_articles[a].created_at <= old_articles[b].created_at);
                    }
                }
            }
            saved = new_slug;
        }
        self.replace_tags(saved.as_str(), &upd.tag_list);
        Ok(saved)
    }
}

} // verus!
