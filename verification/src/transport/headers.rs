//! The values of the HTTP headers OCPI defines: the request and correlation ids, and the
//! `Link` header of a paginated response.

use vstd::prelude::*;

use crate::strings::{
    chars_of, eq_ignore_ascii_case, push_str, split_chars, split_on, str_eq_ignore_case,
    string_from_chars, trim_chars, trim_end, trim_start, trim_end_char, trim_start_char,
    trim_whitespace, views,
};
use crate::types::url::Url;

use super::auth::random_uuid_text;

verus! {

/// The name of the `Authorization` header.
pub const AUTHORIZATION: &'static str = "authorization";

/// `X-Request-ID`: unique per request; the response repeats it.
pub const X_REQUEST_ID: &'static str = "x-request-id";

/// `X-Correlation-ID`: unique per logical exchange; survives hub forwarding.
pub const X_CORRELATION_ID: &'static str = "x-correlation-id";

/// `OCPI-to-party-id`: party id of the party this message is to be sent to.
pub const OCPI_TO_PARTY_ID: &'static str = "ocpi-to-party-id";

/// `OCPI-to-country-code`: country code of the party this message is to be sent to.
pub const OCPI_TO_COUNTRY_CODE: &'static str = "ocpi-to-country-code";

/// `OCPI-from-party-id`: party id of the party this message is sent from.
pub const OCPI_FROM_PARTY_ID: &'static str = "ocpi-from-party-id";

/// `OCPI-from-country-code`: country code of the party this message is sent from.
pub const OCPI_FROM_COUNTRY_CODE: &'static str = "ocpi-from-country-code";

/// `Link`: the link to the next page of a paginated GET.
pub const LINK: &'static str = "link";

/// `X-Total-Count`: the total number of objects matching a paginated query.
pub const X_TOTAL_COUNT: &'static str = "x-total-count";

/// `X-Limit`: the maximum number of objects the server will return per page.
pub const X_LIMIT: &'static str = "x-limit";

/// `Location`: where a newly POSTed CDR can be retrieved.
pub const LOCATION: &'static str = "location";

/// The `Content-Type` OCPI bodies use.
pub const APPLICATION_JSON: &'static str = "application/json";

/// The pair of ids every OCPI request and response carries.
#[derive(Clone, Debug, PartialEq, Eq, Hash)]
pub struct RequestIds {
    /// Unique per request hop.
    pub request_id: String,
    /// Unique per logical exchange, preserved across hub hops.
    pub correlation_id: String,
}

impl RequestIds {
    /// A fresh pair of UUIDs, as the specification advises.
    pub fn generate() -> (r: Self)
        ensures
            r.request_id@.len() == 36,
            r.correlation_id@.len() == 36,
    {
        RequestIds { request_id: random_uuid_text(), correlation_id: random_uuid_text() }
    }

    /// The ids a hub must use when forwarding this request: a new request id, the same
    /// correlation id.
    pub fn forwarded(&self) -> (r: Self)
        ensures
            r.correlation_id@ == self.correlation_id@,
            r.request_id@.len() == 36,
    {
        RequestIds { request_id: random_uuid_text(), correlation_id: self.correlation_id.clone() }
    }

    /// The pair as text: `request=<id> correlation=<id>`.
    pub fn to_string(&self) -> (s: String)
        ensures
            s@ == "request="@ + self.request_id@ + " correlation="@ + self.correlation_id@,
    {
        let mut s = String::new();
        push_str(&mut s, "request=");
        push_str(&mut s, self.request_id.as_str());
        push_str(&mut s, " correlation=");
        push_str(&mut s, self.correlation_id.as_str());
        s
    }
}

/// `Link: <url>; rel="next"`.
pub open spec fn link_next_text(url: Seq<char>) -> Seq<char> {
    "<"@ + url + ">; rel=\"next\""@
}

/// Builds a `Link: <url>; rel="next"` header value.
pub fn link_next(url: &Url) -> (s: String)
    ensures
        s@ == link_next_text(url@),
{
    let mut s = String::new();
    push_str(&mut s, "<");
    push_str(&mut s, url.as_str());
    push_str(&mut s, ">; rel=\"next\"");
    s
}

/// The entries of a `Link` header before trimming, and the `<` nesting depth at its end: split
/// at commas outside `<...>`.
pub open spec fn link_split(s: Seq<char>) -> (Seq<Seq<char>>, nat)
    decreases s.len(),
{
    if s.len() == 0 {
        (seq![Seq::empty()], 0)
    } else {
        let prev = link_split(s.drop_last());
        let parts = prev.0;
        let depth = prev.1;
        let ch = s.last();
        if ch == ',' && depth == 0 {
            (parts.push(Seq::empty()), depth)
        } else {
            let grown = parts.update(parts.len() - 1, parts.last().push(ch));
            if ch == '<' {
                (grown, depth + 1)
            } else if ch == '>' {
                (
                    grown,
                    if depth > 0 {
                        (depth - 1) as nat
                    } else {
                        0
                    },
                )
            } else {
                (grown, depth)
            }
        }
    }
}

/// Each text trimmed.
pub open spec fn trim_all(es: Seq<Seq<char>>) -> Seq<Seq<char>>
    decreases es.len(),
{
    if es.len() == 0 {
        Seq::empty()
    } else {
        trim_all(es.drop_last()).push(trim_whitespace(es.last()))
    }
}

/// The entries of a `Link` header: split at commas outside `<...>`, each trimmed.
pub open spec fn link_entries(s: Seq<char>) -> Seq<Seq<char>> {
    trim_all(link_split(s).0)
}

/// The URL between `<` and `>`, when the target is written that way.
pub open spec fn link_target(t: Seq<char>) -> Option<Seq<char>> {
    if t.len() >= 2 && t[0] == '<' && t.last() == '>' {
        Some(t.subrange(1, t.len() - 1))
    } else {
        None
    }
}

/// Where the first `c` of `s` stands, if there is one.
pub open spec fn first_index(s: Seq<char>, c: char) -> Option<int> {
    if exists|i: int| 0 <= i < s.len() && s[i] == c {
        Some(choose|i: int| 0 <= i < s.len() && s[i] == c && forall|j: int| 0 <= j < i ==> s[j] != c)
    } else {
        None
    }
}

/// Whether a link parameter is `rel=next`: the key, trimmed, is `rel` and the value, trimmed and
/// unquoted, is `next`, both in any case; the unquoted form is tolerated.
pub open spec fn param_is_next(p: Seq<char>) -> bool {
    let q = trim_whitespace(p);
    match first_index(q, '=') {
        None => false,
        Some(i) => str_eq_ignore_case(trim_whitespace(q.subrange(0, i)), "rel"@) && str_eq_ignore_case(
            trim_end(trim_start(trim_whitespace(q.subrange(i + 1, q.len() as int)), '"'), '"'),
            "next"@,
        ),
    }
}

/// The `rel="next"` URL among the entries from `k` on. An entry whose target is not written
/// `<...>` is skipped.
pub open spec fn link_next_from(entries: Seq<Seq<char>>, k: int) -> Option<Seq<char>>
    decreases entries.len() - k,
{
    if k < 0 || k >= entries.len() {
        None
    } else {
        let parts = split_on(entries[k], ';');
        match link_target(trim_whitespace(parts[0])) {
            None => link_next_from(entries, k + 1),
            Some(url) => if exists|j: int| 1 <= j < parts.len() && param_is_next(#[trigger] parts[j]) {
                Some(url)
            } else {
                link_next_from(entries, k + 1)
            },
        }
    }
}

/// The entries of a `Link` header, each trimmed.
fn split_link_entries(value: &Vec<char>) -> (r: Vec<Vec<char>>)
    ensures
        views(r@) == link_entries(value@),
{
    let mut parts: Vec<Vec<char>> = Vec::new();
    parts.push(Vec::new());
    let mut depth: usize = 0;
    let mut i: usize = 0;
    proof {
        assert(value@.take(0) =~= Seq::<char>::empty());
        assert(views(parts@) =~= seq![Seq::<char>::empty()]);
    }
    while i < value.len()
        invariant
            i <= value@.len(),
            depth <= i,
            parts@.len() >= 1,
            views(parts@) == link_split(value@.take(i as int)).0,
            depth == link_split(value@.take(i as int)).1,
        decreases value@.len() - i,
    {
        let ch = value[i];
        proof {
            assert(value@.take(i + 1).drop_last() =~= value@.take(i as int));
        }
        if ch == ',' && depth == 0 {
            parts.push(Vec::new());
            proof {
                assert(views(parts@) =~= link_split(value@.take(i + 1)).0);
            }
        } else {
            let mut last = parts.pop().unwrap();
            last.push(ch);
            parts.push(last);
            proof {
                assert(views(parts@) =~= link_split(value@.take(i + 1)).0);
            }
            if ch == '<' {
                depth = depth + 1;
            } else if ch == '>' {
                if depth > 0 {
                    depth = depth - 1;
                }
            }
        }
        i = i + 1;
    }
    proof {
        assert(value@.take(value@.len() as int) =~= value@);
    }
    let mut out: Vec<Vec<char>> = Vec::new();
    let mut k: usize = 0;
    while k < parts.len()
        invariant
            k <= parts@.len(),
            views(parts@) == link_split(value@).0,
            views(out@) == trim_all(link_split(value@).0.take(k as int)),
        decreases parts@.len() - k,
    {
        let t = trim_chars(&parts[k]);
        proof {
            assert(views(parts@)[k as int] == parts@[k as int]@);
        }
        out.push(t);
        proof {
            let l = link_split(value@).0;
            assert(l.take(k + 1).drop_last() =~= l.take(k as int));
            assert(views(out@) =~= trim_all(l.take(k + 1)));
        }
        k = k + 1;
    }
    proof {
        assert(link_split(value@).0.take(parts@.len() as int) =~= link_split(value@).0);
    }
    out
}

/// The URL inside `<...>`, when the target is written that way.
fn target_url(t: &Vec<char>) -> (r: Option<String>)
    ensures
        match link_target(t@) {
            Some(u) => r matches Some(s) && s@ == u,
            None => r is None,
        },
{
    let n = t.len();
    if n >= 2 && t[0] == '<' && t[n - 1] == '>' {
        Some(string_from_chars(t, 1, n - 1))
    } else {
        None
    }
}

/// Whether a link parameter is `rel=next`.
fn is_next_param(p: &Vec<char>) -> (r: bool)
    ensures
        r == param_is_next(p@),
{
    let q = trim_chars(p);
    let n = q.len();
    let mut i: usize = 0;
    while i < n
        invariant
            i <= n,
            n == q@.len(),
            forall|j: int| 0 <= j < i ==> q@[j] != '=',
        ensures
            i <= n,
            forall|j: int| 0 <= j < i ==> q@[j] != '=',
            i < n ==> q@[i as int] == '=',
        decreases n - i,
    {
        if q[i] == '=' {
            break;
        }
        i = i + 1;
    }
    if i == n {
        return false;
    }
    proof {
        let k = first_index(q@, '=')->0;
        assert(first_index(q@, '=') is Some);
        if k < i {
            assert(q@[k] != '=');
        }
        if k > i {
            assert(q@[i as int] != '=');
        }
        assert(k == i);
    }
    let mut key_chars: Vec<char> = Vec::new();
    let mut j: usize = 0;
    while j < i
        invariant
            j <= i < n,
            n == q@.len(),
            key_chars@ == q@.subrange(0, j as int),
        decreases i - j,
    {
        key_chars.push(q[j]);
        assert(key_chars@ =~= q@.subrange(0, j + 1));
        j = j + 1;
    }
    let key = trim_chars(&key_chars);
    let key_text = string_from_chars(&key, 0, key.len());
    assert(key.len() == key@.len());
    assert(key@.subrange(0, key@.len() as int) =~= key@);
    if !eq_ignore_ascii_case(key_text.as_str(), "rel") {
        return false;
    }
    let mut val_chars: Vec<char> = Vec::new();
    let mut m: usize = i + 1;
    while m < n
        invariant
            i < m <= n,
            n == q@.len(),
            val_chars@ == q@.subrange(i + 1, m as int),
        decreases n - m,
    {
        val_chars.push(q[m]);
        assert(val_chars@ =~= q@.subrange(i + 1, m + 1));
        m = m + 1;
    }
    let val = trim_chars(&val_chars);
    let val_text = string_from_chars(&val, 0, val.len());
    assert(val@.subrange(0, val@.len() as int) =~= val@);
    let unquoted = trim_end_char(trim_start_char(val_text.as_str(), '"'), '"');
    eq_ignore_ascii_case(unquoted, "next")
}

/// Extracts the `rel="next"` URL from a `Link` header value. Several entries are handled, and the
/// unquoted `rel=next` form is tolerated. Every entry is examined: one whose target is not
/// written `<...>` is skipped.
pub fn parse_link_next(value: &str) -> (r: Option<Url>)
    ensures
        match link_next_from(link_entries(value@), 0) {
            Some(u) => r matches Some(x) && x@ == u,
            None => r is None,
        },
{
    let chars = chars_of(value);
    let entries = split_link_entries(&chars);
    let ghost es = link_entries(value@);
    let mut k: usize = 0;
    while k < entries.len()
        invariant
            k <= entries@.len(),
            views(entries@) == es,
            es == link_entries(value@),
            link_next_from(es, 0) == link_next_from(es, k as int),
        decreases entries@.len() - k,
    {
        let parts = split_chars(&entries[k], ';');
        assert(views(entries@)[k as int] == entries@[k as int]@);
        let ghost ps = split_on(es[k as int], ';');
        let target = trim_chars(&parts[0]);
        assert(views(parts@)[0] == parts@[0]@);
        let url = match target_url(&target) {
            Some(u) => u,
            None => {
                k = k + 1;
                continue;
            },
        };
        let mut j: usize = 1;
        while j < parts.len()
            invariant
                1 <= j <= parts@.len(),
                k < es.len(),
                es == link_entries(value@),
                ps == split_on(es[k as int], ';'),
                views(parts@) == ps,
                link_target(trim_whitespace(ps[0])) == Some(url@),
                link_next_from(es, 0) == link_next_from(es, k as int),
                forall|x: int| 1 <= x < j ==> !param_is_next(#[trigger] ps[x]),
            decreases parts@.len() - j,
        {
            assert(views(parts@)[j as int] == parts@[j as int]@);
            if is_next_param(&parts[j]) {
                assert(param_is_next(ps[j as int]));
                assert(link_next_from(es, k as int) == Some(url@));
                return Some(Url::from_string_lenient(url));
            }
            j = j + 1;
        }
        assert(!exists|x: int| 1 <= x < ps.len() && param_is_next(#[trigger] ps[x]));
        k = k + 1;
    }
    None
}

} // verus!
