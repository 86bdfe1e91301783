//! The paging and filtering parameters of the article feed.
use vstd::prelude::*;

use crate::text::{owned, push_char};

verus! {

/// Rows per page when none is given.
pub const DEFAULT_AMOUNT: u32 = 10;

/// Filter and page of the home feed; absent fields take their defaults.
#[derive(Clone, Debug)]
pub struct Pagination {
    tag: Option<String>,
    my_feed: Option<bool>,
    page: Option<u32>,
    amount: Option<u32>,
}

/// The effective parameters: tag (empty: no filter), feed flag, page, rows per page.
pub struct PaginationView {
    pub tag: Seq<char>,
    pub my_feed: bool,
    pub page: u32,
    pub amount: u32,
}

impl View for Pagination {
    type V = PaginationView;

    closed spec fn view(&self) -> PaginationView {
        PaginationView {
            tag: match self.tag {
                Some(t) => t@,
                None => Seq::empty(),
            },
            my_feed: match self.my_feed {
                Some(b) => b,
                None => false,
            },
            page: match self.page {
                Some(p) => p,
                None => 0,
            },
            amount: match self.amount {
                Some(a) => a,
                None => DEFAULT_AMOUNT,
            },
        }
    }
}

/// The decimal digits of `n`.
pub open spec fn decimal(n: nat) -> Seq<char>
    decreases n,
{
    if n < 10 {
        seq![((n + 48) as u32) as char]
    } else {
        decimal(n / 10).push((((n % 10) + 48) as u32) as char)
    }
}

/// `n` in decimal.
pub fn decimal_text(n: u32) -> (r: String)
    ensures
        r@ == decimal(n as nat),
    decreases n,
{
    if n < 10 {
        let mut s = String::new();
        push_char(&mut s, ((n as u8) + 48) as char);
        s
    } else {
        let mut s = decimal_text(n / 10);
        push_char(&mut s, (((n % 10) as u8) + 48) as char);
        s
    }
}

/// Bytes that stand for themselves in a query value.
pub open spec fn is_unreserved(b: u8) -> bool {
    (0x41 <= b <= 0x5a) || (0x61 <= b <= 0x7a) || (0x30 <= b <= 0x39) || b == 0x2d || b == 0x5f
        || b == 0x2e || b == 0x7e
}

/// The upper-case hexadecimal digit of `n < 16`.
pub open spec fn hex_digit(n: u8) -> char {
    if n < 10 {
        ((n + 48) as u32) as char
    } else {
        ((n + 55) as u32) as char
    }
}

/// The bytes as a query value: unreserved bytes as they are, every other byte
/// as `%` and two upper-case hexadecimal digits.
pub open spec fn percent_encoded(bytes: Seq<u8>) -> Seq<char>
    decreases bytes.len(),
{
    if bytes.len() == 0 {
        Seq::empty()
    } else {
        let b = bytes.last();
        percent_encoded(bytes.drop_last()) + if is_unreserved(b) {
            seq![(b as u32) as char]
        } else {
            seq!['%', hex_digit(b / 16), hex_digit(b % 16)]
        }
    }
}

fn hex_char(n: u8) -> (r: char)
    requires
        n < 16,
    ensures
        r == hex_digit(n),
{
    if n < 10 {
        (n + 48) as char
    } else {
        (n + 55) as char
    }
}

/// Percent-encodes the UTF-8 bytes of `s` for use as a query value.
pub fn percent_encode(s: &str) -> (r: String)
    ensures
        r@ == percent_encoded(vstd::utf8::encode_utf8(s@)),
{
    let bytes = s.as_bytes();
    let mut out = String::new();
    let mut i: usize = 0;
    while i < bytes.len()
        invariant
            bytes@ == vstd::utf8::encode_utf8(s@),
            i <= bytes@.len(),
            out@ == percent_encoded(bytes@.subrange(0, i as int)),
        decreases bytes.len() - i,
    {
        assert(bytes@.subrange(0, i + 1).drop_last() =~= bytes@.subrange(0, i as int));
        let b = bytes[i];
        let unreserved = (0x41 <= b && b <= 0x5a) || (0x61 <= b && b <= 0x7a) || (0x30 <= b && b
            <= 0x39) || b == 0x2d || b == 0x5f || b == 0x2e || b == 0x7e;
        if unreserved {
            push_char(&mut out, b as char);
        } else {
            push_char(&mut out, '%');
            push_char(&mut out, hex_char(b / 16));
            push_char(&mut out, hex_char(b % 16));
        }
        i = i + 1;
    }
    assert(bytes@.subrange(0, i as int) =~= bytes@);
    out
}

pub open spec fn bool_text(b: bool) -> Seq<char> {
    if b {
        "true"@
    } else {
        "false"@
    }
}

impl Pagination {
    /// The first page of the global feed, ten rows, no tag.
    pub fn new() -> (r: Pagination)
        ensures
            r@.tag.len() == 0,
            r@.my_feed == false,
            r@.page == 0,
            r@.amount == DEFAULT_AMOUNT,
    {
        Pagination { tag: Some(String::new()), my_feed: Some(false), page: Some(0), amount: Some(10) }
    }

    /// Parameters as they come from a query, each possibly absent.
    pub fn from_parts(
        tag: Option<String>,
        my_feed: Option<bool>,
        page: Option<u32>,
        amount: Option<u32>,
    ) -> (r: Pagination)
        ensures
            r@.tag == (match tag {
                Some(t) => t@,
                None => Seq::<char>::empty(),
            }),
            r@.my_feed == (match my_feed {
                Some(b) => b,
                None => false,
            }),
            r@.page == (match page {
                Some(p) => p,
                None => 0u32,
            }),
            r@.amount == (match amount {
                Some(a) => a,
                None => DEFAULT_AMOUNT,
            }),
    {
        Pagination { tag, my_feed, page, amount }
    }

    pub fn get_tag(&self) -> (r: &str)
        ensures
            r@ == self@.tag,
    {
        match &self.tag {
            Some(t) => t.as_str(),
            None => {
                let e = "";
                proof {
                    reveal_strlit("");
                }
                e
            },
        }
    }

    pub fn get_my_feed(&self) -> (r: bool)
        ensures
            r == self@.my_feed,
    {
        match self.my_feed {
            Some(b) => b,
            None => false,
        }
    }

    pub fn get_page(&self) -> (r: u32)
        ensures
            r == self@.page,
    {
        match self.page {
            Some(p) => p,
            None => 0,
        }
    }

    pub fn get_amount(&self) -> (r: u32)
        ensures
            r == self@.amount,
    {
        match self.amount {
            Some(a) => a,
            None => DEFAULT_AMOUNT,
        }
    }

    pub fn set_tag(self, tag: &str) -> (r: Pagination)
        ensures
            r@ == (PaginationView { tag: tag@, ..self@ }),
    {
        let mut p = self;
        p.tag = Some(owned(tag));
        p
    }

    pub fn set_amount(self, amount: u32) -> (r: Pagination)
        ensures
            r@ == (PaginationView { amount, ..self@ }),
    {
        let mut p = self;
        p.amount = Some(amount);
        p
    }

    pub fn set_my_feed(self, feed: bool) -> (r: Pagination)
        ensures
            r@ == (PaginationView { my_feed: feed, ..self@ }),
    {
        let mut p = self;
        p.my_feed = Some(feed);
        p
    }

    pub fn reset_page(self) -> (r: Pagination)
        ensures
            r@ == (PaginationView { page: 0, ..self@ }),
    {
        let mut p = self;
        p.page = Some(0);
        p
    }

    /// The next page; the page number saturates at `u32::MAX`.
    pub fn next_page(self) -> (r: Pagination)
        ensures
            r@ == (PaginationView {
                page: if self@.page == u32::MAX {
                    u32::MAX
                } else {
                    (self@.page + 1) as u32
                },
                ..self@
            }),
    {
        let page = self.get_page();
        let mut p = self;
        p.page = Some(page.saturating_add(1));
        p
    }

    /// The previous page; page 0 stays 0.
    pub fn previous_page(self) -> (r: Pagination)
        ensures
            r@ == (PaginationView {
                page: if self@.page == 0 {
                    0u32
                } else {
                    (self@.page - 1) as u32
                },
                ..self@
            }),
    {
        let page = self.get_page();
        let mut p = self;
        p.page = Some(page.saturating_sub(1));
        p
    }

    /// The home-page link for these parameters:
    /// `/?tag=..&my_feed=..&page=..&amount=..`, the tag percent-encoded.
    pub fn to_string(&self) -> (r: String)
        ensures
            r@ == "/?tag="@ + percent_encoded(vstd::utf8::encode_utf8(self@.tag)) + "&my_feed="@ + bool_text(self@.my_feed) + "&page="@
                + decimal(self@.page as nat) + "&amount="@ + decimal(self@.amount as nat),
    {
        let mut s = owned("/?tag=");
        let tag = percent_encode(self.get_tag());
        s.append(tag.as_str());
        s.append("&my_feed=");
        if self.get_my_feed() {
            s.append("true");
        } else {
            s.append("false");
        }
        s.append("&page=");
        let page = decimal_text(self.get_page());
        s.append(page.as_str());
        s.append("&amount=");
        let amount = decimal_text(self.get_amount());
        s.append(amount.as_str());
        s
    }
}

impl Default for Pagination {
    fn default() -> (r: Pagination)
        ensures
            r@.tag.len() == 0,
            r@.my_feed == false,
            r@.page == 0,
            r@.amount == DEFAULT_AMOUNT,
    {
        Pagination::new()
    }
}

} // verus!
