//! Validation of an article from the editor form: field lengths, the tag list,
//! and the slug derived from a title.
use vstd::prelude::*;

use crate::text::{char_count, owned, push_char, same_text};

verus! {

/// Fewest characters in a title.
pub const TITLE_MIN_LENGTH: usize = 4;

/// Fewest characters in a description.
pub const DESCRIPTION_MIN_LENGTH: usize = 4;

/// Fewest characters in a body.
pub const BODY_MIN_LENGTH: usize = 10;

/// A validated article, ready for the store.
#[derive(Clone, Debug)]
pub struct ArticleUpdate {
    pub title: String,
    pub description: String,
    pub body: String,
    /// Distinct tags, in order of first appearance.
    pub tag_list: Vec<String>,
}

impl ArticleUpdate {
    /// The tags are distinct.
    pub open spec fn wf(&self) -> bool {
        self.tag_list@.map_values(|t: String| t@).no_duplicates()
    }
}

/// The characters `split_ascii_whitespace` splits on.
pub open spec fn is_ascii_space(c: char) -> bool {
    c == ' ' || c == '\t' || c == '\n' || c == '\x0C' || c == '\r'
}

/// The words of `s` from position `i`, within a word that began at `start`.
pub open spec fn words_from(s: Seq<char>, i: int, start: int) -> Seq<Seq<char>>
    decreases s.len() - i,
{
    if i >= s.len() {
        if start < s.len() {
            seq![s.subrange(start, s.len() as int)]
        } else {
            Seq::empty()
        }
    } else if is_ascii_space(s[i]) {
        if start < i {
            seq![s.subrange(start, i)] + words_from(s, i + 1, i + 1)
        } else {
            words_from(s, i + 1, i + 1)
        }
    } else {
        words_from(s, i + 1, start)
    }
}

/// The non-empty runs of `s` between ASCII whitespace.
pub open spec fn words(s: Seq<char>) -> Seq<Seq<char>> {
    words_from(s, 0, 0)
}

/// `acc` followed by the words of `ws` that are not yet in it, first occurrence kept.
pub open spec fn dedup_onto(acc: Seq<Seq<char>>, ws: Seq<Seq<char>>) -> Seq<Seq<char>>
    decreases ws.len(),
{
    if ws.len() == 0 {
        acc
    } else if acc.contains(ws[0]) {
        dedup_onto(acc, ws.drop_first())
    } else {
        dedup_onto(acc.push(ws[0]), ws.drop_first())
    }
}

/// The tags of a space-separated list: its distinct words, first occurrence kept.
pub open spec fn tag_set(s: Seq<char>) -> Seq<Seq<char>> {
    dedup_onto(Seq::empty(), words(s))
}

proof fn lemma_dedup_distinct(acc: Seq<Seq<char>>, ws: Seq<Seq<char>>)
    requires
        acc.no_duplicates(),
    ensures
        dedup_onto(acc, ws).no_duplicates(),
    decreases ws.len(),
{
    if ws.len() > 0 {
        if !acc.contains(ws[0]) {
            assert(acc.push(ws[0]).no_duplicates()) by {
                assert forall|a: int, b: int|
                    0 <= a < b < acc.push(ws[0]).len() implies acc.push(ws[0])[a] != acc.push(
                    ws[0],
                )[b] by {
                    if b == acc.len() {
                        assert(acc.push(ws[0])[a] == acc[a]);
                    }
                }
            }
            lemma_dedup_distinct(acc.push(ws[0]), ws.drop_first());
        } else {
            lemma_dedup_distinct(acc, ws.drop_first());
        }
    }
}

proof fn lemma_dedup_step(acc: Seq<Seq<char>>, w: Seq<char>, rest: Seq<Seq<char>>)
    ensures
        dedup_onto(acc, seq![w] + rest) == dedup_onto(
            if acc.contains(w) {
                acc
            } else {
                acc.push(w)
            },
            rest,
        ),
{
    assert((seq![w] + rest)[0] == w);
    assert((seq![w] + rest).drop_first() =~= rest);
}

/// Whether `s` is one of the strings of `v`.
pub fn contains_text(v: &Vec<String>, s: &str) -> (r: bool)
    ensures
        r == v@.map_values(|x: String| x@).contains(s@),
{
    let ghost vs = v@.map_values(|x: String| x@);
    let mut i: usize = 0;
    while i < v.len()
        invariant
            i <= v@.len(),
            vs == v@.map_values(|x: String| x@),
            forall|j: int| 0 <= j < i ==> vs[j] != s@,
        decreases v.len() - i,
    {
        if same_text(v[i].as_str(), s) {
            assert(vs[i as int] == s@);
            return true;
        }
        i = i + 1;
    }
    false
}

/// The distinct words of a space-separated tag list, in order of first appearance.
pub fn parse_tags(s: &str) -> (r: Vec<String>)
    ensures
        r@.map_values(|x: String| x@) == tag_set(s@),
        r@.map_values(|x: String| x@).no_duplicates(),
{
    proof {
        lemma_dedup_distinct(Seq::empty(), words(s@));
    }
    let n = s.unicode_len();
    let mut out: Vec<String> = Vec::new();
    assert(out@.map_values(|x: String| x@) =~= Seq::<Seq<char>>::empty());
    let mut i: usize = 0;
    let mut start: usize = 0;
    while i < n
        invariant
            n as nat == s@.len(),
            start <= i <= n,
            dedup_onto(out@.map_values(|x: String| x@), words_from(s@, i as int, start as int))
                == tag_set(s@),
        decreases n - i,
    {
        let c = s.get_char(i);
        if c == ' ' || c == '\t' || c == '\n' || c == '\x0C' || c == '\r' {
            if start < i {
                let w = s.substring_char(start, i);
                add_tag(&mut out, w, Ghost(words_from(s@, i as int + 1, i as int + 1)));
            }
            i = i + 1;
            start = i;
        } else {
            i = i + 1;
        }
    }
    if start < n {
        let w = s.substring_char(start, n);
        assert(words_from(s@, n as int, start as int) =~= seq![w@] + Seq::<Seq<char>>::empty());
        add_tag(&mut out, w, Ghost(Seq::empty()));
    }
    out
}

/// Adds `w` unless it is there; the tags still to come are `rest`.
fn add_tag(out: &mut Vec<String>, w: &str, rest: Ghost<Seq<Seq<char>>>)
    ensures
        dedup_onto(final(out)@.map_values(|x: String| x@), rest@) == dedup_onto(
            old(out)@.map_values(|x: String| x@),
            seq![w@] + rest@,
        ),
{
    let ghost acc = out@.map_values(|x: String| x@);
    proof {
        lemma_dedup_step(acc, w@, rest@);
    }
    if !contains_text(out, w) {
        out.push(owned(w));
        assert(out@.map_values(|x: String| x@) =~= acc.push(w@));
    }
}

/// What `char::to_ascii_lowercase` returns.
pub open spec fn ascii_lower(c: char) -> char {
    if 'A' <= c <= 'Z' {
        ((c as u32) + 32) as char
    } else {
        c
    }
}

/// `A`..`Z` become `a`..`z`, all else stays, as `char::to_ascii_lowercase` does.
fn to_ascii_lowercase(c: char) -> (r: char)
    ensures
        r == ascii_lower(c),
{
    if 'A' <= c && c <= 'Z' {
        ((c as u8) + 32) as char
    } else {
        c
    }
}

/// What a title character becomes in a slug, if it stays.
pub open spec fn slug_char(c: char) -> Option<char> {
    let d = ascii_lower(c);
    if d == ' ' {
        Some('-')
    } else if ('a' <= d <= 'z') || ('A' <= d <= 'Z') || ('0' <= d <= '9') || d == '-' {
        Some(d)
    } else {
        None
    }
}

/// The slug of a title: lower case, spaces as hyphens, other characters than
/// ASCII letters, digits and hyphens dropped.
pub open spec fn slug_of(title: Seq<char>) -> Seq<char>
    decreases title.len(),
{
    if title.len() == 0 {
        Seq::empty()
    } else {
        match slug_char(title.last()) {
            Some(c) => slug_of(title.drop_last()).push(c),
            None => slug_of(title.drop_last()),
        }
    }
}

/// The URL-safe slug derived from a title.
pub fn slugify(title: &str) -> (r: String)
    ensures
        r@ == slug_of(title@),
{
    let n = title.unicode_len();
    let mut out = String::new();
    let mut i: usize = 0;
    while i < n
        invariant
            n as nat == title@.len(),
            i <= n,
            out@ == slug_of(title@.subrange(0, i as int)),
        decreases n - i,
    {
        assert(title@.subrange(0, i + 1).drop_last() =~= title@.subrange(0, i as int));
        let c = to_ascii_lowercase(title.get_char(i));
        if c == ' ' {
            push_char(&mut out, '-');
        } else if ('a' <= c && c <= 'z') || ('A' <= c && c <= 'Z') || ('0' <= c && c <= '9') || c
            == '-' {
            push_char(&mut out, c);
        }
        i = i + 1;
    }
    assert(title@.subrange(0, n as int) =~= title@);
    out
}

pub open spec fn title_message() -> Seq<char> {
    "You need to provide a title with at least 4 characters"@
}

pub open spec fn description_message() -> Seq<char> {
    "You need to provide a description with at least 4 characters"@
}

pub open spec fn body_message() -> Seq<char> {
    "You need to provide a body with at least 10 characters"@
}

/// The message `validate_article` refuses with, if any.
pub open spec fn article_problem(title: Seq<char>, description: Seq<char>, body: Seq<char>) -> Option<Seq<char>> {
    if title.len() < TITLE_MIN_LENGTH {
        Some(title_message())
    } else if description.len() < DESCRIPTION_MIN_LENGTH {
        Some(description_message())
    } else if body.len() < BODY_MIN_LENGTH {
        Some(body_message())
    } else {
        None
    }
}

/// Checks the lengths of title, description and body, in that order, and
/// turns the space-separated tag list into distinct tags.
pub fn validate_article(title: String, description: String, body: String, tag_list: String) -> (r:
    Result<ArticleUpdate, String>)
    ensures
        match article_problem(title@, description@, body@) {
            Some(m) => r matches Err(e) && e@ == m,
            None => r matches Ok(a) && a.wf() && a.title@ == title@ && a.description@ == description@
                && a.body@ == body@ && a.tag_list@.map_values(|x: String| x@) == tag_set(tag_list@),
        },
{
    if char_count(title.as_str()) < TITLE_MIN_LENGTH {
        return Err(owned("You need to provide a title with at least 4 characters"));
    }
    if char_count(description.as_str()) < DESCRIPTION_MIN_LENGTH {
        return Err(owned("You need to provide a description with at least 4 characters"));
    }
    if char_count(body.as_str()) < BODY_MIN_LENGTH {
        return Err(owned("You need to provide a body with at least 10 characters"));
    }
    let tags = parse_tags(tag_list.as_str());
    Ok(ArticleUpdate { title, description, body, tag_list: tags })
}

} // verus!
