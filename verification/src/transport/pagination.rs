//! Pagination: the query parameters, the three response headers, and the crawl.

use vstd::prelude::*;
use vstd::utf8::encode_utf8;

use crate::strings::{dec_digits, push_decimal, push_str};
use crate::types::datetime::DateTime;
use crate::types::url::{Url, encode_query_component, percent_encoded, with_query_text};

verus! {

/// The query parameters of a paginated GET. The interval is half-open: `date_from` inclusive,
/// `date_to` exclusive, so that the next interval starts where the last one ended.
#[derive(Clone, Copy, Debug, Default, PartialEq, Eq)]
pub struct PageQuery {
    /// Only objects with `last_updated` at or after this time. Inclusive.
    pub date_from: Option<DateTime>,
    /// Only objects with `last_updated` before this time. Exclusive.
    pub date_to: Option<DateTime>,
    /// The offset of the first object returned. Absent means 0.
    pub offset: Option<u64>,
    /// The maximum number of objects to return. The server may return fewer.
    pub limit: Option<u64>,
}

/// `acc`, then `part`, separated by `&` when `acc` already holds a part.
pub open spec fn append_part(acc: Seq<char>, part: Seq<char>) -> Seq<char> {
    if acc.len() == 0 {
        part
    } else {
        acc + "&"@ + part
    }
}

/// A timestamp as a query value: its text, percent-encoded.
pub open spec fn date_param(d: DateTime) -> Seq<char> {
    percent_encoded(encode_utf8(d.text()), false)
}

/// The query string: `offset`, `limit`, `date_from`, `date_to`, those that are set, in the order
/// the specification's examples use, joined by `&`; empty when nothing is set.
pub open spec fn query_text(q: PageQuery) -> Seq<char> {
    let a = match q.offset {
        Some(o) => "offset="@ + dec_digits(o as nat),
        None => Seq::empty(),
    };
    let b = match q.limit {
        Some(l) => append_part(a, "limit="@ + dec_digits(l as nat)),
        None => a,
    };
    let c = match q.date_from {
        Some(d) => append_part(b, "date_from="@ + date_param(d)),
        None => b,
    };
    match q.date_to {
        Some(d) => append_part(c, "date_to="@ + date_param(d)),
        None => c,
    }
}

/// Appends a part to a query string being built.
fn push_part(s: &mut String, part: &str)
    ensures
        final(s)@ == append_part(old(s)@, part@),
{
    if s.as_str().unicode_len() > 0 {
        push_str(s, "&");
    }
    push_str(s, part);
}

impl PageQuery {
    /// An empty query: everything, from the beginning, at the server's own page size.
    pub fn new() -> (q: Self)
        ensures
            q == (PageQuery { date_from: None, date_to: None, offset: None, limit: None }),
    {
        PageQuery { date_from: None, date_to: None, offset: None, limit: None }
    }

    /// Everything updated at or after `from`.
    pub fn since(from: DateTime) -> (q: Self)
        ensures
            q == (PageQuery { date_from: Some(from), date_to: None, offset: None, limit: None }),
    {
        PageQuery { date_from: Some(from), date_to: None, offset: None, limit: None }
    }

    /// Everything updated in `[from, to)`.
    pub fn between(from: DateTime, to: DateTime) -> (q: Self)
        ensures
            q == (PageQuery { date_from: Some(from), date_to: Some(to), offset: None, limit: None }),
    {
        PageQuery { date_from: Some(from), date_to: Some(to), offset: None, limit: None }
    }

    /// This query with an explicit page size.
    pub fn with_limit(self, limit: u64) -> (q: Self)
        ensures
            q == (PageQuery { limit: Some(limit), ..self }),
    {
        PageQuery { limit: Some(limit), ..self }
    }

    /// This query with an explicit offset.
    pub fn with_offset(self, offset: u64) -> (q: Self)
        ensures
            q == (PageQuery { offset: Some(offset), ..self }),
    {
        PageQuery { offset: Some(offset), ..self }
    }

    /// The offset, applying the specification's default of 0.
    pub fn offset_or_default(&self) -> (r: u64)
        ensures
            r == match self.offset {
                Some(o) => o,
                None => 0,
            },
    {
        match self.offset {
            Some(o) => o,
            None => 0,
        }
    }

    /// The query for the next time interval, starting where this one ended, with the same page
    /// size and no offset; `None` when this query has no `date_to` to continue from.
    pub fn next_interval(&self, new_end: DateTime) -> (r: Option<Self>)
        ensures
            r == match self.date_to {
                Some(start) => Some(
                    PageQuery {
                        date_from: Some(start),
                        date_to: Some(new_end),
                        offset: None,
                        limit: self.limit,
                    },
                ),
                None => None,
            },
    {
        match self.date_to {
            Some(start) => Some(
                PageQuery { date_from: Some(start), date_to: Some(new_end), offset: None, limit: self.limit },
            ),
            None => None,
        }
    }

    /// The query string, empty when nothing is set so that it can be appended unconditionally.
    pub fn to_query_string(&self) -> (s: String)
        ensures
            s@ == query_text(*self),
    {
        let mut s = String::new();
        match self.offset {
            Some(o) => {
                let mut p = String::new();
                push_str(&mut p, "offset=");
                push_decimal(&mut p, o);
                push_part(&mut s, p.as_str());
            },
            None => {},
        }
        match self.limit {
            Some(l) => {
                let mut p = String::new();
                push_str(&mut p, "limit=");
                push_decimal(&mut p, l);
                push_part(&mut s, p.as_str());
            },
            None => {},
        }
        match self.date_from {
            Some(d) => {
                let mut p = String::new();
                push_str(&mut p, "date_from=");
                let t = d.to_string();
                let e = encode_query_component(t.as_str());
                push_str(&mut p, e.as_str());
                push_part(&mut s, p.as_str());
            },
            None => {},
        }
        match self.date_to {
            Some(d) => {
                let mut p = String::new();
                push_str(&mut p, "date_to=");
                let t = d.to_string();
                let e = encode_query_component(t.as_str());
                push_str(&mut p, e.as_str());
                push_part(&mut s, p.as_str());
            },
            None => {},
        }
        s
    }

    /// Applies this query to a base URL.
    pub fn apply_to(&self, base: &Url) -> (u: Url)
        ensures
            u@ == with_query_text(base@, query_text(*self)),
    {
        let q = self.to_query_string();
        base.with_query(q.as_str())
    }

    /// Clamps `limit` to `max`, as a peer's advertised `X-Limit` requires; no limit becomes
    /// `max`.
    pub fn clamped_to(self, max: u64) -> (q: Self)
        ensures
            q == (PageQuery {
                limit: Some(
                    match self.limit {
                        Some(l) => if l <= max {
                            l
                        } else {
                            max
                        },
                        None => max,
                    },
                ),
                ..self
            }),
    {
        let limit = match self.limit {
            Some(l) => if l <= max {
                l
            } else {
                max
            },
            None => max,
        };
        PageQuery { limit: Some(limit), ..self }
    }

    /// The query as text: the query string, or `(no filters)` when it is empty.
    pub fn to_string(&self) -> (s: String)
        ensures
            s@ == if query_text(*self).len() == 0 {
                "(no filters)"@
            } else {
                query_text(*self)
            },
    {
        let q = self.to_query_string();
        if q.as_str().unicode_len() == 0 {
            String::from_str("(no filters)")
        } else {
            q
        }
    }
}

/// Clamping never asks for more than the peer advertised, and keeps a smaller request as it is.
pub proof fn lemma_clamped_limit_respects_peer(limit: Option<u64>, max: u64)
    ensures
        ({
            let clamped = match limit {
                Some(l) => if l <= max {
                    l
                } else {
                    max
                },
                None => max,
            };
            &&& clamped <= max
            &&& forall|l: u64| limit == Some(l) && l <= max ==> clamped == l
        }),
{
}

/// The three headers a paginated response carries.
#[derive(Debug, PartialEq, Eq, Default)]
pub struct PageMeta {
    /// The URL of the next page, present only when this is not the last page.
    pub next: Option<Url>,
    /// The total number of objects matching the query, excluding `limit` and `offset`.
    pub total_count: Option<u64>,
    /// The maximum number of objects the server will return: an upper limit, not the number
    /// returned.
    pub limit: Option<u64>,
}

impl Clone for PageMeta {
    fn clone(&self) -> (r: Self)
        ensures
            r.next.is_some() == self.next.is_some(),
            r.next matches Some(u) ==> u@ == self.next->0@,
            r.total_count == self.total_count,
            r.limit == self.limit,
    {
        let next = match &self.next {
            Some(u) => Some(u.clone()),
            None => None,
        };
        PageMeta { next, total_count: self.total_count, limit: self.limit }
    }
}

impl PageMeta {
    /// Whether there is another page to fetch.
    pub fn has_next(&self) -> (r: bool)
        ensures
            r == self.next.is_some(),
    {
        self.next.is_some()
    }
}

/// One page of a list endpoint: the objects and the metadata the headers carry.
#[derive(Debug)]
pub struct Page<T> {
    /// The objects on this page.
    pub items: Vec<T>,
    /// The pagination headers that came with them.
    pub meta: PageMeta,
}

impl<T> Page<T> {
    /// A page with no next link, for a server returning everything at once: its total count
    /// is the number of items.
    pub fn single(items: Vec<T>) -> (p: Self)
        ensures
            p.items@ == items@,
            p.meta.next is None,
            p.meta.total_count == Some(items@.len() as u64),
            p.meta.limit is None,
    {
        let total = items.len() as u64;
        Page { items, meta: PageMeta { next: None, total_count: Some(total), limit: None } }
    }

    /// Whether there is another page to fetch.
    pub fn has_next(&self) -> (r: bool)
        ensures
            r == self.meta.next.is_some(),
    {
        self.meta.has_next()
    }
}

/// What a client should do after a page whose `X-Total-Count` moved.
#[derive(Clone, Copy, Debug, PartialEq, Eq, Structural)]
pub enum CrawlAdjustment {
    /// The count is stable or grew; follow the next link as normal: only the last page differs.
    Continue,
    /// The count shrank; re-fetch at this offset before continuing.
    RefetchAt(u64),
}

/// How to continue a crawl: when the total count shrank and the page just fetched was not at
/// offset 0, redo it one lower; otherwise continue.
pub open spec fn crawl_adjustment_of(
    previous_total: Option<u64>,
    new_total: Option<u64>,
    previous_offset: u64,
) -> CrawlAdjustment {
    match (previous_total, new_total) {
        (Some(before), Some(now)) => if now < before && previous_offset > 0 {
            CrawlAdjustment::RefetchAt((previous_offset - 1) as u64)
        } else {
            CrawlAdjustment::Continue
        },
        _ => CrawlAdjustment::Continue,
    }
}

/// Decides how to continue a crawl after seeing a new total count; `previous_offset` is the
/// offset of the page just fetched.
pub fn crawl_adjustment(previous_total: Option<u64>, new_total: Option<u64>, previous_offset: u64) -> (r:
    CrawlAdjustment)
    ensures
        r == crawl_adjustment_of(previous_total, new_total, previous_offset),
{
    match (previous_total, new_total) {
        (Some(before), Some(now)) => if now < before && previous_offset > 0 {
            CrawlAdjustment::RefetchAt(previous_offset - 1)
        } else {
            CrawlAdjustment::Continue
        },
        _ => CrawlAdjustment::Continue,
    }
}


/// A crawl steps back only when the total count shrank: with both counts known, it re-fetches
/// one offset lower exactly when the new count is below the old one and the page was not the
/// first; a count that held or grew, or one not known, lets it follow the next link.
pub proof fn lemma_refetch_only_when_the_count_shrank(
    previous_total: Option<u64>,
    new_total: Option<u64>,
    previous_offset: u64,
)
    ensures
        crawl_adjustment_of(previous_total, new_total, previous_offset) is RefetchAt <==> (previous_total matches Some(
            before,
        ) && new_total matches Some(now) && now < before && previous_offset > 0),
        crawl_adjustment_of(previous_total, new_total, previous_offset) matches CrawlAdjustment::RefetchAt(at) ==> at
            + 1 == previous_offset,
        (previous_total matches Some(before) && new_total matches Some(now) && now >= before) ==> crawl_adjustment_of(
            previous_total,
            new_total,
            previous_offset,
        ) == CrawlAdjustment::Continue,
{
}

} // verus!
