//! `Url` — an OCPI `URL`, kept exactly as written, and the policy for which URLs may be called.

use vstd::prelude::*;
use vstd::utf8::encode_utf8;

use crate::strings::{
    bytes_eq_ignore_case, contains_char, debug_text, dec_digits, ends_with, hex_byte, hex_char, push_char,
    push_debug_str, push_decimal, push_str, str_ends_with, str_eq, to_ascii_lower, trim_end,
    trim_end_char, trim_start, trim_start_char,
};
use crate::types::open_enum::joined;

use super::validate::{Validate, Validator, ViolationCode, ViolationView};

verus! {

/// The maximum length the spec gives for a `URL`: `string(255)`.
pub const URL_MAX_LEN: usize = 255;

/// An OCPI `URL`, stored exactly as received.
#[derive(Default, PartialEq, Eq, PartialOrd, Ord, Hash, Debug)]
pub struct Url(String);

impl Clone for Url {
    fn clone(&self) -> (r: Self)
        ensures
            r@ == self@,
    {
        Url(self.0.clone())
    }
}

impl View for Url {
    type V = Seq<char>;

    closed spec fn view(&self) -> Seq<char> {
        self.0@
    }
}

/// The host of a parsed URL.
#[derive(Clone, Debug, PartialEq, Eq)]
pub enum UrlHost {
    /// A domain name, as the URL parser normalised it.
    Domain(String),
    /// An IPv4 address, as its four octets.
    Ipv4([u8; 4]),
    /// An IPv6 address, as its eight 16-bit segments.
    Ipv6([u16; 8]),
}

/// A host as the contracts see it.
pub enum HostView {
    /// A domain name.
    Domain(Seq<char>),
    /// An IPv4 address.
    Ipv4(u8, u8, u8, u8),
    /// An IPv6 address.
    Ipv6(u16, u16, u16, u16, u16, u16, u16, u16),
}

impl View for UrlHost {
    type V = HostView;

    open spec fn view(&self) -> HostView {
        match self {
            UrlHost::Domain(d) => HostView::Domain(d@),
            UrlHost::Ipv4(o) => HostView::Ipv4(o@[0], o@[1], o@[2], o@[3]),
            UrlHost::Ipv6(s) => HostView::Ipv6(s@[0], s@[1], s@[2], s@[3], s@[4], s@[5], s@[6], s@[7]),
        }
    }
}

/// What the URL parser reports about a URL: what the policy checks read.
#[derive(Clone, Debug, PartialEq, Eq)]
pub struct ParsedUrl {
    /// The scheme, lower-cased.
    pub scheme: String,
    /// The host, when the URL has one.
    pub host: Option<UrlHost>,
    /// The host as the parser writes it, `""` when there is none.
    pub host_text: String,
    /// Whether the URL is of the cannot-be-a-base kind, such as `mailto:`.
    pub cannot_be_a_base: bool,
}

/// A parsed URL as the contracts see it.
pub struct ParsedUrlView {
    /// The scheme.
    pub scheme: Seq<char>,
    /// The host.
    pub host: Option<HostView>,
    /// The host as text.
    pub host_text: Seq<char>,
    /// Whether the URL cannot be a base.
    pub cannot_be_a_base: bool,
}

impl View for ParsedUrl {
    type V = ParsedUrlView;

    open spec fn view(&self) -> ParsedUrlView {
        ParsedUrlView {
            scheme: self.scheme@,
            host: match self.host {
                Some(h) => Some(h@),
                None => None,
            },
            host_text: self.host_text@,
            cannot_be_a_base: self.cannot_be_a_base,
        }
    }
}

/// What the `url` crate's WHATWG parser makes of `text`: the parsed URL, or the text of its
/// parse error.
pub uninterp spec fn url_parse_result(text: Seq<char>) -> Result<ParsedUrlView, Seq<char>>;

/// Parses a URL with the `url` crate.
///
/// Trusted: `url::Url::parse`, with `scheme`, `host`, the host's `Display` and
/// `cannot_be_a_base` read off the result, and the parse error's `Display` text on failure. The
/// parser is a deterministic function of the text; its rules are not restated here and are named
/// by [`url_parse_result`].
#[verifier::external_body]
fn parse_url(text: &str) -> (r: Result<ParsedUrl, String>)
    ensures
        url_parse_result(text@) == match r {
            Ok(p) => Ok::<ParsedUrlView, Seq<char>>(p@),
            Err(e) => Err::<ParsedUrlView, Seq<char>>(e@),
        },
{
    match url::Url::parse(text) {
        Ok(u) => Ok(ParsedUrl {
            scheme: u.scheme().to_owned(),
            host: u.host().map(|h| match h {
                url::Host::Domain(d) => UrlHost::Domain(d.to_owned()),
                url::Host::Ipv4(ip) => UrlHost::Ipv4(ip.octets()),
                url::Host::Ipv6(ip) => UrlHost::Ipv6(ip.segments()),
            }),
            host_text: u.host().map(|h| h.to_string()).unwrap_or_default(),
            cannot_be_a_base: u.cannot_be_a_base(),
        }),
        Err(e) => Err(e.to_string()),
    }
}

/// Why a string is not a usable OCPI `URL`.
#[derive(Clone, Debug, PartialEq, Eq)]
pub struct InvalidUrl(String);

/// Why a URL was refused by a [`UrlPolicy`].
#[derive(Clone, Debug, PartialEq, Eq)]
pub struct UrlRefused(String);

impl InvalidUrl {
    /// The explanation.
    pub closed spec fn spec_message(&self) -> Seq<char> {
        self.0@
    }

    /// The explanation a person reads.
    pub fn to_string(&self) -> (s: String)
        ensures
            s@ == "invalid URL: "@ + self.spec_message(),
    {
        let mut s = String::new();
        push_str(&mut s, "invalid URL: ");
        push_str(&mut s, self.0.as_str());
        s
    }
}

impl UrlRefused {
    /// The explanation.
    pub closed spec fn spec_message(&self) -> Seq<char> {
        self.0@
    }

    /// The explanation a person reads.
    pub fn to_string(&self) -> (s: String)
        ensures
            s@ == "URL refused: "@ + self.spec_message(),
    {
        let mut s = String::new();
        push_str(&mut s, "URL refused: ");
        push_str(&mut s, self.0.as_str());
        s
    }
}

/// Why [`Url::new`] refuses `text`, or `None` when it accepts it.
pub open spec fn url_new_error(text: Seq<char>) -> Option<Seq<char>> {
    match url_parse_result(text) {
        Err(e) => Some(debug_text(text) + ": "@ + e),
        Ok(p) => if p.cannot_be_a_base {
            Some(debug_text(text) + ": not an absolute http(s) URL"@)
        } else if text.len() > 255 {
            Some("URL is "@ + dec_digits(text.len()) + " characters, the limit is 255"@)
        } else {
            None
        },
    }
}

/// The deviations [`Url::validate`] reports for `text`: not a URL, or not an absolute one, then
/// longer than `URL(255)`.
pub open spec fn url_violations(text: Seq<char>) -> Seq<ViolationView> {
    let shape: Seq<ViolationView> = match url_parse_result(text) {
        Err(e) => seq![
            (Seq::<char>::empty(), ViolationCode::IllegalCharacter, debug_text(text) + " is not a URL: "@ + e),
        ],
        Ok(p) => if p.cannot_be_a_base {
            seq![
                (
                    Seq::<char>::empty(),
                    ViolationCode::IllegalCharacter,
                    debug_text(text) + " is not an absolute URL"@,
                ),
            ]
        } else {
            Seq::empty()
        },
    };
    if text.len() > 255 {
        shape.push(
            (
                Seq::<char>::empty(),
                ViolationCode::TooLong,
                "URL(255) holds "@ + dec_digits(text.len()) + " characters"@,
            ),
        )
    } else {
        shape
    }
}

/// [`Url::join`]: the base without trailing `/`, then the path without leading or trailing `/`,
/// with exactly one `/` between them.
pub open spec fn joined_url(base: Seq<char>, path: Seq<char>) -> Seq<char> {
    let b = trim_end(base, '/');
    let p = trim_end(trim_start(path, '/'), '/');
    if p.len() == 0 {
        b
    } else {
        b + "/"@ + p
    }
}

/// `base` with the one path segment `segment` appended, percent-encoded as an RFC 3986 `pchar`.
pub open spec fn segment_joined(base: Seq<char>, segment: Seq<char>) -> Seq<char> {
    joined_url(base, percent_encoded(encode_utf8(segment), true))
}

/// [`Url::with_query`]: the query appended with `?`, or with `&` when there already is a `?`.
pub open spec fn with_query_text(url: Seq<char>, query: Seq<char>) -> Seq<char> {
    if query.len() == 0 {
        url
    } else if url.contains('?') {
        url + "&"@ + query
    } else {
        url + "?"@ + query
    }
}

/// RFC 3986 `pchar`: unreserved, sub-delims, `:` and `@`.
pub open spec fn is_pchar_byte(b: u8) -> bool {
    is_unreserved_byte(b) || b == 0x21 || b == 0x24 || b == 0x26 || b == 0x27 || b == 0x28 || b
        == 0x29 || b == 0x2a || b == 0x2b || b == 0x2c || b == 0x3b || b == 0x3d || b == 0x3a || b
        == 0x40
}

/// RFC 3986 unreserved: letters, digits, `-`, `.`, `_` and `~`.
pub open spec fn is_unreserved_byte(b: u8) -> bool {
    (0x41 <= b <= 0x5a) || (0x61 <= b <= 0x7a) || (0x30 <= b <= 0x39) || b == 0x2d || b == 0x2e
        || b == 0x5f || b == 0x7e
}

/// Percent-encoding of `bytes`: a byte that is kept stays as its character, every other byte
/// becomes `%XX` in upper-case hexadecimal.
pub open spec fn percent_encoded(bytes: Seq<u8>, path: bool) -> Seq<char>
    decreases bytes.len(),
{
    if bytes.len() == 0 {
        Seq::empty()
    } else {
        let b = bytes.last();
        let keep = if path {
            is_pchar_byte(b)
        } else {
            is_unreserved_byte(b)
        };
        percent_encoded(bytes.drop_last(), path) + if keep {
            seq![b as char]
        } else {
            seq!['%'] + hex_byte(b)
        }
    }
}

fn keep_pchar(b: u8) -> (r: bool)
    ensures
        r == is_pchar_byte(b),
{
    keep_unreserved(b) || b == 0x21 || b == 0x24 || b == 0x26 || b == 0x27 || b == 0x28 || b
        == 0x29 || b == 0x2a || b == 0x2b || b == 0x2c || b == 0x3b || b == 0x3d || b == 0x3a || b
        == 0x40
}

fn keep_unreserved(b: u8) -> (r: bool)
    ensures
        r == is_unreserved_byte(b),
{
    (0x41 <= b && b <= 0x5a) || (0x61 <= b && b <= 0x7a) || (0x30 <= b && b <= 0x39) || b == 0x2d
        || b == 0x2e || b == 0x5f || b == 0x7e
}

fn hex_nibble(d: u8) -> (c: char)
    requires
        d < 16,
    ensures
        c == crate::strings::hex_char(d as nat),
{
    if d < 10 {
        (d + 48) as char
    } else {
        (d + 55) as char
    }
}

fn encode(value: &str, path: bool) -> (s: String)
    ensures
        s@ == percent_encoded(encode_utf8(value@), path),
{
    let bytes = value.as_bytes();
    let mut out = String::new();
    let mut i: usize = 0;
    while i < bytes.len()
        invariant
            bytes@ == encode_utf8(value@),
            i <= bytes@.len(),
            out@ == percent_encoded(bytes@.subrange(0, i as int), path),
        decreases bytes@.len() - i,
    {
        let b = bytes[i];
        let keep = if path {
            keep_pchar(b)
        } else {
            keep_unreserved(b)
        };
        proof {
            assert(bytes@.subrange(0, i + 1).drop_last() =~= bytes@.subrange(0, i as int));
        }
        if keep {
            push_char(&mut out, b as char);
        } else {
            push_char(&mut out, '%');
            push_char(&mut out, hex_nibble(b / 16));
            push_char(&mut out, hex_nibble(b % 16));
        }
        assert(out@ =~= percent_encoded(bytes@.subrange(0, i + 1), path));
        i = i + 1;
    }
    assert(bytes@.subrange(0, bytes@.len() as int) =~= bytes@);
    out
}

/// Whether `c` is an upper-case hexadecimal digit.
pub open spec fn is_upper_hex(c: char) -> bool {
    ('0' <= c <= '9') || ('A' <= c <= 'F')
}

/// The value of an upper-case hexadecimal digit.
pub open spec fn hex_value(c: char) -> int {
    if '0' <= c <= '9' {
        c as int - 48
    } else {
        c as int - 55
    }
}

/// Percent-decoding, read from the end: `%XX` stands for the byte `XX`, any other ASCII
/// character but `%` for itself; `None` for anything else.
pub open spec fn percent_decoded(s: Seq<char>) -> Option<Seq<u8>>
    decreases s.len(),
{
    if s.len() == 0 {
        Some(Seq::empty())
    } else if s.len() >= 3 && s[s.len() - 3] == '%' && is_upper_hex(s[s.len() - 2]) && is_upper_hex(
        s[s.len() - 1],
    ) {
        match percent_decoded(s.subrange(0, s.len() - 3)) {
            Some(b) => Some(b.push((hex_value(s[s.len() - 2]) * 16 + hex_value(s[s.len() - 1])) as u8)),
            None => None,
        }
    } else if s.last() != '%' && (s.last() as int) < 128 {
        match percent_decoded(s.drop_last()) {
            Some(b) => Some(b.push(s.last() as u8)),
            None => None,
        }
    } else {
        None
    }
}

/// Neither of the last two characters of a percent-encoding is a `%`.
proof fn lemma_encoding_ends_without_percent(bytes: Seq<u8>, path: bool)
    ensures
        ({
            let e = percent_encoded(bytes, path);
            &&& e.len() >= 1 ==> e[e.len() - 1] != '%'
            &&& e.len() >= 2 ==> e[e.len() - 2] != '%'
        }),
    decreases bytes.len(),
{
    if bytes.len() > 0 {
        lemma_encoding_ends_without_percent(bytes.drop_last(), path);
        let b = bytes.last();
        assert(hex_char(b as nat / 16) != '%' && hex_char(b as nat % 16) != '%');
    }
}

/// Percent-decoding undoes percent-encoding: the text a segment or query component is encoded
/// to decodes back to its bytes.
pub proof fn lemma_percent_decoding_undoes_encoding(bytes: Seq<u8>, path: bool)
    ensures
        percent_decoded(percent_encoded(bytes, path)) == Some(bytes),
    decreases bytes.len(),
{
    if bytes.len() > 0 {
        let prefix = bytes.drop_last();
        let b = bytes.last();
        lemma_percent_decoding_undoes_encoding(prefix, path);
        lemma_encoding_ends_without_percent(prefix, path);
        let p = percent_encoded(prefix, path);
        let e = percent_encoded(bytes, path);
        let keep = if path {
            is_pchar_byte(b)
        } else {
            is_unreserved_byte(b)
        };
        if keep {
            assert(e == p + seq![b as char]);
            assert(e.drop_last() =~= p);
            assert(e.last() == b as char);
            assert((b as char) as int == b as int);
            assert(e.len() >= 3 ==> e[e.len() - 3] == p[p.len() - 2]);
            assert(bytes =~= prefix.push(b));
        } else {
            let hi = (b as nat / 16) as nat;
            let lo = (b as nat % 16) as nat;
            assert(e == p + (seq!['%'] + hex_byte(b)));
            assert(e.subrange(0, e.len() - 3) =~= p);
            assert(e[e.len() - 3] == '%');
            assert(e[e.len() - 2] == hex_char(hi));
            assert(e[e.len() - 1] == hex_char(lo));
            assert(hex_value(hex_char(hi)) == hi);
            assert(hex_value(hex_char(lo)) == lo);
            assert(hi * 16 + lo == b as nat);
            assert(bytes =~= prefix.push(b));
        }
    }
}

/// Whether `s` is made of RFC 3986 `pchar` characters and `%XX` escapes in upper-case
/// hexadecimal, read from the end.
pub open spec fn pchars_and_escapes(s: Seq<char>) -> bool
    decreases s.len(),
{
    if s.len() == 0 {
        true
    } else if s.len() >= 3 && s[s.len() - 3] == '%' && is_upper_hex(s[s.len() - 2]) && is_upper_hex(
        s[s.len() - 1],
    ) {
        pchars_and_escapes(s.subrange(0, s.len() - 3))
    } else {
        (s.last() as int) < 128 && is_pchar_byte(s.last() as u8) && pchars_and_escapes(s.drop_last())
    }
}

/// Whether `c` is an ASCII RFC 3986 `pchar`.
pub open spec fn is_pchar_char(c: char) -> bool {
    (c as int) < 128 && is_pchar_byte(c as u8)
}

/// A path segment's encoding is made of `pchar` characters and `%XX` escapes only: every
/// character is a `pchar` or a `%`, so none is a `/`, a `?` or a `#`.
pub proof fn lemma_segment_encoding_is_pchars(bytes: Seq<u8>)
    ensures
        pchars_and_escapes(percent_encoded(bytes, true)),
        forall|i: int|
            0 <= i < percent_encoded(bytes, true).len() ==> is_pchar_char(#[trigger] percent_encoded(bytes, true)[i])
                || percent_encoded(bytes, true)[i] == '%',
        !percent_encoded(bytes, true).contains('/'),
        !percent_encoded(bytes, true).contains('?'),
        !percent_encoded(bytes, true).contains('#'),
    decreases bytes.len(),
{
    if bytes.len() > 0 {
        let prefix = bytes.drop_last();
        let b = bytes.last();
        lemma_segment_encoding_is_pchars(prefix);
        lemma_encoding_ends_without_percent(prefix, true);
        let p = percent_encoded(prefix, true);
        let e = percent_encoded(bytes, true);
        if is_pchar_byte(b) {
            assert(e == p + seq![b as char]);
            assert(e.drop_last() =~= p);
            assert((b as char) as int == b as int);
            assert(((b as char) as int) < 128) by {
                assert(b < 128) by {
                    assert(is_pchar_byte(b));
                }
            }
            assert(e.len() >= 3 ==> e[e.len() - 3] == p[p.len() - 2]);
            assert forall|i: int| 0 <= i < e.len() implies is_pchar_char(#[trigger] e[i]) || e[i] == '%' by {
                if i < p.len() {
                    assert(e[i] == p[i]);
                }
            }
        } else {
            let hi = (b as nat / 16) as nat;
            let lo = (b as nat % 16) as nat;
            assert(e == p + (seq!['%'] + hex_byte(b)));
            assert(e.subrange(0, e.len() - 3) =~= p);
            assert(e[e.len() - 3] == '%');
            assert(e[e.len() - 2] == hex_char(hi));
            assert(e[e.len() - 1] == hex_char(lo));
            assert(is_upper_hex(hex_char(hi)) && is_upper_hex(hex_char(lo)));
            assert(is_pchar_char(hex_char(hi)) && is_pchar_char(hex_char(lo)));
            assert forall|i: int| 0 <= i < e.len() implies is_pchar_char(#[trigger] e[i]) || e[i] == '%' by {
                if i < p.len() {
                    assert(e[i] == p[i]);
                }
            }
        }
        assert(!e.contains('/')) by {
            if e.contains('/') {
                let w = choose|w: int| 0 <= w < e.len() && e[w] == '/';
                assert(is_pchar_char(e[w]) || e[w] == '%');
            }
        }
        assert(!e.contains('?')) by {
            if e.contains('?') {
                let w = choose|w: int| 0 <= w < e.len() && e[w] == '?';
                assert(is_pchar_char(e[w]) || e[w] == '%');
            }
        }
        assert(!e.contains('#')) by {
            if e.contains('#') {
                let w = choose|w: int| 0 <= w < e.len() && e[w] == '#';
                assert(is_pchar_char(e[w]) || e[w] == '%');
            }
        }
    }
}

/// Percent-encodes one URL **path segment**: everything outside RFC 3986 `pchar` is encoded, so
/// the value cannot introduce a segment boundary, a query, a fragment or a stray `%`.
pub fn encode_path_segment(value: &str) -> (s: String)
    ensures
        s@ == percent_encoded(encode_utf8(value@), true),
{
    encode(value, true)
}

/// Percent-encodes one query-parameter name or value: only unreserved characters survive, so a
/// value carrying `&`, `=` or `+` cannot become a second parameter or a space.
pub fn encode_query_component(value: &str) -> (s: String)
    ensures
        s@ == percent_encoded(encode_utf8(value@), false),
{
    encode(value, false)
}

impl Validate for Url {
    open spec fn violations(&self) -> Seq<ViolationView> {
        url_violations(self@)
    }

    fn validate_in(&self, v: &mut Validator)
        ensures
            final(v)@ == old(v)@ + url_violations(self@),
    {
        let ghost start = v@;
        match parse_url(self.0.as_str()) {
            Err(e) => {
                let mut m = String::new();
                push_debug_str(&mut m, self.0.as_str());
                push_str(&mut m, " is not a URL: ");
                push_str(&mut m, e.as_str());
                v.report(ViolationCode::IllegalCharacter, m);
            },
            Ok(p) => {
                if p.cannot_be_a_base {
                    let mut m = String::new();
                    push_debug_str(&mut m, self.0.as_str());
                    push_str(&mut m, " is not an absolute URL");
                    v.report(ViolationCode::IllegalCharacter, m);
                }
            },
        }
        let len = self.0.as_str().unicode_len();
        if len > URL_MAX_LEN {
            let mut m = String::new();
            push_str(&mut m, "URL(255) holds ");
            push_decimal(&mut m, len as u64);
            push_str(&mut m, " characters");
            v.report(ViolationCode::TooLong, m);
        }
        assert(v@ =~= start + url_violations(self@));
    }
}

impl Url {
    /// Creates a `Url`, checking that it parses as an absolute URL and fits `string(255)`.
    pub fn new(value: &str) -> (res: Result<Self, InvalidUrl>)
        ensures
            res is Ok <==> url_new_error(value@) is None,
            res matches Ok(u) ==> u@ == value@,
            res matches Err(e) ==> Some(e.spec_message()) == url_new_error(value@),
    {
        match parse_url(value) {
            Err(e) => {
                let mut m = String::new();
                push_debug_str(&mut m, value);
                push_str(&mut m, ": ");
                push_str(&mut m, e.as_str());
                Err(InvalidUrl(m))
            },
            Ok(p) => {
                if p.cannot_be_a_base {
                    let mut m = String::new();
                    push_debug_str(&mut m, value);
                    push_str(&mut m, ": not an absolute http(s) URL");
                    return Err(InvalidUrl(m));
                }
                let len = value.unicode_len();
                if len > URL_MAX_LEN {
                    let mut m = String::new();
                    push_str(&mut m, "URL is ");
                    push_decimal(&mut m, len as u64);
                    push_str(&mut m, " characters, the limit is 255");
                    return Err(InvalidUrl(m));
                }
                Ok(Url(value.to_owned()))
            },
        }
    }

    /// Creates a `Url` without checking anything, as decoding from the wire does.
    pub fn new_lenient(value: &str) -> (u: Self)
        ensures
            u@ == value@,
    {
        Url(value.to_owned())
    }

    /// Wraps an owned string without checking anything.
    pub fn from_string_lenient(value: String) -> (u: Self)
        ensures
            u@ == value@,
    {
        Url(value)
    }

    /// The URL exactly as received or constructed.
    pub fn as_str(&self) -> (r: &str)
        ensures
            r@ == self@,
    {
        self.0.as_str()
    }

    /// Consumes this value and yields the inner text.
    pub fn into_string(self) -> (r: String)
        ensures
            r@ == self@,
    {
        self.0
    }

    /// Parses the URL.
    pub fn parse(&self) -> (res: Result<ParsedUrl, InvalidUrl>)
        ensures
            res matches Ok(p) ==> url_parse_result(self@) == Ok::<ParsedUrlView, Seq<char>>(p@),
            res matches Err(e) ==> url_parse_result(self@) is Err && e.spec_message() == debug_text(
                self@,
            ) + ": "@ + url_parse_result(self@)->Err_0,
    {
        match parse_url(self.0.as_str()) {
            Ok(p) => Ok(p),
            Err(e) => {
                let mut m = String::new();
                push_debug_str(&mut m, self.0.as_str());
                push_str(&mut m, ": ");
                push_str(&mut m, e.as_str());
                Err(InvalidUrl(m))
            },
        }
    }

    /// This URL with an already-encoded path appended, keeping exactly one `/` between the two
    /// and never leaving a trailing one.
    pub fn join(&self, path: &str) -> (u: Self)
        ensures
            u@ == joined_url(self@, path@),
    {
        let base = trim_end_char(self.0.as_str(), '/');
        let p = trim_end_char(trim_start_char(path, '/'), '/');
        let mut out = String::new();
        push_str(&mut out, base);
        if p.unicode_len() == 0 {
            assert(out@ =~= joined_url(self@, path@));
            return Url(out);
        }
        push_str(&mut out, "/");
        push_str(&mut out, p);
        assert(out@ =~= joined_url(self@, path@));
        Url(out)
    }

    /// This URL with one path segment appended, percent-encoded, so that the segment's value
    /// cannot change the URL's structure: every id put in a path goes through here.
    pub fn join_segment(&self, segment: &str) -> (u: Self)
        ensures
            u@ == segment_joined(self@, segment@),
    {
        let encoded = encode_path_segment(segment);
        self.join(encoded.as_str())
    }

    /// This URL with a query string appended verbatim, using `?` or `&` as appropriate.
    pub fn with_query(&self, query: &str) -> (u: Self)
        ensures
            u@ == with_query_text(self@, query@),
    {
        if query.unicode_len() == 0 {
            return Url(self.0.clone());
        }
        let mut out = String::new();
        push_str(&mut out, self.0.as_str());
        if contains_char(self.0.as_str(), '?') {
            push_str(&mut out, "&");
        } else {
            push_str(&mut out, "?");
        }
        push_str(&mut out, query);
        assert(out@ =~= with_query_text(self@, query@));
        Url(out)
    }

    /// This URL with one `name=value` query parameter appended, the value percent-encoded.
    pub fn with_param(&self, name: &str, value: &str) -> (u: Self)
        ensures
            u@ == with_query_text(
                self@,
                name@ + "="@ + percent_encoded(encode_utf8(value@), false),
            ),
    {
        let mut q = String::new();
        push_str(&mut q, name);
        push_str(&mut q, "=");
        let v = encode_query_component(value);
        push_str(&mut q, v.as_str());
        assert(q@ =~= name@ + "="@ + percent_encoded(encode_utf8(value@), false));
        self.with_query(q.as_str())
    }

    /// Whether this URL is acceptable under `policy`.
    pub fn check(&self, policy: &UrlPolicy) -> (res: Result<(), UrlRefused>)
        ensures
            res is Ok <==> policy_refusal(policy@, self@) is None,
            res matches Err(e) ==> Some(e.spec_message()) == policy_refusal(policy@, self@),
    {
        policy.check(self)
    }
}

/// What a party is willing to send a request to.
///
/// The policy inspects the URL, and only the URL: it cannot see where a host name resolves, so
/// an explicit host allow-list is the real defence against a name that points somewhere private.
#[derive(Clone, Debug)]
pub struct UrlPolicy {
    /// Schemes that may be used. Defaults to `https` only.
    pub allowed_schemes: Vec<String>,
    /// Whether loopback, link-local, private and unspecified addresses may be targeted.
    pub allow_private_networks: bool,
    /// When non-empty, only these hosts (matched case-insensitively, plus their subdomains) may
    /// be targeted.
    pub allowed_hosts: Vec<String>,
}

/// A policy as the contracts see it.
pub struct UrlPolicyView {
    /// The allowed schemes.
    pub allowed_schemes: Seq<Seq<char>>,
    /// Whether private networks may be targeted.
    pub allow_private_networks: bool,
    /// The allowed hosts.
    pub allowed_hosts: Seq<Seq<char>>,
}

impl View for UrlPolicy {
    type V = UrlPolicyView;

    open spec fn view(&self) -> UrlPolicyView {
        UrlPolicyView {
            allowed_schemes: self.allowed_schemes@.map_values(|s: String| s@),
            allow_private_networks: self.allow_private_networks,
            allowed_hosts: self.allowed_hosts@.map_values(|s: String| s@),
        }
    }
}

/// A private, loopback, link-local, unspecified, broadcast, documentation or carrier-grade NAT
/// IPv4 address.
pub open spec fn is_private_ipv4(a: u8, b: u8, c: u8, d: u8) -> bool {
    ||| a == 10
    ||| (a == 172 && 16 <= b <= 31)
    ||| (a == 192 && b == 168)
    ||| a == 127
    ||| (a == 169 && b == 254)
    ||| (a == 0 && b == 0 && c == 0 && d == 0)
    ||| (a == 255 && b == 255 && c == 255 && d == 255)
    ||| (a == 192 && b == 0 && c == 2)
    ||| (a == 198 && b == 51 && c == 100)
    ||| (a == 203 && b == 0 && c == 113)
    ||| (a == 100 && 64 <= b < 128)
}

/// The IPv4 address in the low 32 bits of an IPv6 address is private.
pub open spec fn embedded_v4_private(g: u16, h: u16) -> bool {
    is_private_ipv4((g / 256) as u8, (g % 256) as u8, (h / 256) as u8, (h % 256) as u8)
}

/// A loopback, unspecified, unique-local or link-local IPv6 address, or one that spells a
/// private IPv4 address (mapped, compatible or NAT64).
pub open spec fn is_private_ipv6(
    a: u16,
    b: u16,
    c: u16,
    d: u16,
    e: u16,
    f: u16,
    g: u16,
    h: u16,
) -> bool {
    let zero6 = a == 0 && b == 0 && c == 0 && d == 0 && e == 0 && f == 0;
    ||| (zero6 && g == 0 && h == 1)
    ||| (zero6 && g == 0 && h == 0)
    ||| (0xfc00 <= a <= 0xfdff)
    ||| (0xfe80 <= a <= 0xfebf)
    ||| (a == 0 && b == 0 && c == 0 && d == 0 && e == 0 && f == 0xffff && embedded_v4_private(g, h))
    ||| (zero6 && g != 0 && embedded_v4_private(g, h))
    ||| (a == 0x64 && b == 0xff9b && c == 0 && d == 0 && embedded_v4_private(g, h))
}

/// ASCII lower-casing of every character.
pub open spec fn lower_chars(s: Seq<char>) -> Seq<char> {
    s.map_values(|c: char| if 'A' <= c <= 'Z' { ((c as u32) + 32) as char } else { c })
}

/// A name that is this machine or the local link: `localhost`, `*.localhost` or `*.local`.
pub open spec fn is_private_domain(name: Seq<char>) -> bool {
    let lower = lower_chars(name);
    lower == "localhost"@ || ends_with(lower, ".localhost"@) || ends_with(lower, ".local"@)
}

/// Whether a host is on a private or loopback network.
pub open spec fn is_private_host(host: HostView) -> bool {
    match host {
        HostView::Domain(name) => is_private_domain(name),
        HostView::Ipv4(a, b, c, d) => is_private_ipv4(a, b, c, d),
        HostView::Ipv6(a, b, c, d, e, f, g, h) => is_private_ipv6(a, b, c, d, e, f, g, h),
    }
}

/// Whether `host` is `allowed` or a subdomain of it, ignoring ASCII case.
pub open spec fn host_matches(host: Seq<u8>, allowed: Seq<u8>) -> bool {
    ||| bytes_eq_ignore_case(host, allowed)
    ||| (host.len() > allowed.len() && host[host.len() - allowed.len() - 1] == 0x2e
        && bytes_eq_ignore_case(host.subrange(host.len() - allowed.len(), host.len() as int), allowed))
}

/// Whether `host` passes the allow-list `allowed`.
pub open spec fn host_allowed(host: Seq<char>, allowed: Seq<Seq<char>>) -> bool {
    exists|i: int| 0 <= i < allowed.len() && host_matches(encode_utf8(host), encode_utf8(#[trigger] allowed[i]))
}

/// Why `policy` refuses `url`, or `None` when it accepts it.
pub open spec fn policy_refusal(policy: UrlPolicyView, url: Seq<char>) -> Option<Seq<char>> {
    match url_parse_result(url) {
        Err(e) => Some("invalid URL: "@ + debug_text(url) + ": "@ + e),
        Ok(p) => if !policy.allowed_schemes.contains(p.scheme) {
            Some("scheme "@ + debug_text(p.scheme) + " is not allowed (allowed: "@ + joined(policy.allowed_schemes) + ")"@)
        } else {
            match p.host {
                None => Some("URL has no host"@),
                Some(h) => if !policy.allow_private_networks && is_private_host(h) {
                    Some(p.host_text + " is on a private or loopback network"@)
                } else if policy.allowed_hosts.len() != 0 && !host_allowed(p.host_text, policy.allowed_hosts) {
                    Some("host "@ + debug_text(p.host_text) + " is not in the allow-list"@)
                } else {
                    None
                },
            }
        },
    }
}

fn is_private_v4(a: u8, b: u8, c: u8, d: u8) -> (r: bool)
    ensures
        r == is_private_ipv4(a, b, c, d),
{
    a == 10 || (a == 172 && 16 <= b && b <= 31) || (a == 192 && b == 168) || a == 127 || (a == 169
        && b == 254) || (a == 0 && b == 0 && c == 0 && d == 0) || (a == 255 && b == 255 && c == 255
        && d == 255) || (a == 192 && b == 0 && c == 2) || (a == 198 && b == 51 && c == 100) || (a
        == 203 && b == 0 && c == 113) || (a == 100 && 64 <= b && b < 128)
}

fn embedded_private(g: u16, h: u16) -> (r: bool)
    ensures
        r == embedded_v4_private(g, h),
{
    is_private_v4((g / 256) as u8, (g % 256) as u8, (h / 256) as u8, (h % 256) as u8)
}

fn lower_string(s: &str) -> (r: String)
    ensures
        r@ == lower_chars(s@),
{
    let n = s.unicode_len();
    let mut out = String::new();
    let mut i: usize = 0;
    while i < n
        invariant
            n == s@.len(),
            i <= n,
            out@ == lower_chars(s@.subrange(0, i as int)),
        decreases n - i,
    {
        let c = s.get_char(i);
        let l = if 'A' <= c && c <= 'Z' {
            ((c as u32) + 32) as u8 as char
        } else {
            c
        };
        push_char(&mut out, l);
        assert(out@ =~= lower_chars(s@.subrange(0, i + 1)));
        i = i + 1;
    }
    assert(s@.subrange(0, n as int) =~= s@);
    out
}

fn private_host(host: &UrlHost) -> (r: bool)
    ensures
        r == is_private_host(host@),
{
    match host {
        UrlHost::Ipv4(o) => is_private_v4(o[0], o[1], o[2], o[3]),
        UrlHost::Ipv6(s) => {
            let (a, b, c, d, e, f, g, h) = (&s[0], &s[1], &s[2], &s[3], &s[4], &s[5], &s[6], &s[7]);
            let zero6 = *a == 0 && *b == 0 && *c == 0 && *d == 0 && *e == 0 && *f == 0;
            (zero6 && *g == 0 && *h == 1) || (zero6 && *g == 0 && *h == 0) || (0xfc00 <= *a && *a
                <= 0xfdff) || (0xfe80 <= *a && *a <= 0xfebf) || (*a == 0 && *b == 0 && *c == 0 && *d
                == 0 && *e == 0 && *f == 0xffff && embedded_private(*g, *h)) || (zero6 && *g != 0
                && embedded_private(*g, *h)) || (*a == 0x64 && *b == 0xff9b && *c == 0 && *d == 0
                && embedded_private(*g, *h))
        },
        UrlHost::Domain(name) => {
            let lower = lower_string(name.as_str());
            str_eq(lower.as_str(), "localhost") || str_ends_with(lower.as_str(), ".localhost")
                || str_ends_with(lower.as_str(), ".local")
        },
    }
}

fn bytes_match_from(host: &[u8], from: usize, allowed: &[u8]) -> (r: bool)
    requires
        from + allowed@.len() == host@.len(),
    ensures
        r == bytes_eq_ignore_case(host@.subrange(from as int, host@.len() as int), allowed@),
{
    let hl = host.len();
    let mut i: usize = 0;
    while i < allowed.len()
        invariant
            hl == host@.len(),
            from + allowed@.len() == host@.len(),
            i <= allowed@.len(),
            forall|j: int|
                0 <= j < i ==> crate::strings::ascii_lower(#[trigger] host@[from + j])
                    == crate::strings::ascii_lower(allowed@[j]),
        decreases allowed@.len() - i,
    {
        if to_ascii_lower(host[from + i]) != to_ascii_lower(allowed[i]) {
            assert(host@.subrange(from as int, host@.len() as int)[i as int] == host@[from + i]);
            return false;
        }
        i = i + 1;
    }
    assert forall|j: int| 0 <= j < allowed@.len() implies crate::strings::ascii_lower(
        #[trigger] host@.subrange(from as int, host@.len() as int)[j],
    ) == crate::strings::ascii_lower(allowed@[j]) by {
        assert(host@.subrange(from as int, host@.len() as int)[j] == host@[from + j]);
    }
    true
}

fn host_matches_exec(host: &str, allowed: &str) -> (r: bool)
    ensures
        r == host_matches(encode_utf8(host@), encode_utf8(allowed@)),
{
    if crate::strings::eq_ignore_ascii_case(host, allowed) {
        return true;
    }
    let h = host.as_bytes();
    let a = allowed.as_bytes();
    if h.len() > a.len() && h[h.len() - a.len() - 1] == 0x2e {
        bytes_match_from(h, h.len() - a.len(), a)
    } else {
        false
    }
}

impl UrlPolicy {
    /// The default: `https` only, no private networks, no host allow-list.
    pub fn default_policy() -> (p: Self)
        ensures
            p@.allowed_schemes == seq!["https"@],
            !p@.allow_private_networks,
            p@.allowed_hosts.len() == 0,
    {
        let mut schemes: Vec<String> = Vec::new();
        schemes.push("https".to_owned());
        let p = UrlPolicy {
            allowed_schemes: schemes,
            allow_private_networks: false,
            allowed_hosts: Vec::new(),
        };
        assert(p@.allowed_schemes =~= seq!["https"@]);
        p
    }

    /// A policy that permits anything, for tests and trusted networks.
    pub fn permissive() -> (p: Self)
        ensures
            p@.allowed_schemes == seq!["https"@, "http"@],
            p@.allow_private_networks,
            p@.allowed_hosts.len() == 0,
    {
        let mut schemes: Vec<String> = Vec::new();
        schemes.push("https".to_owned());
        schemes.push("http".to_owned());
        let p = UrlPolicy {
            allowed_schemes: schemes,
            allow_private_networks: true,
            allowed_hosts: Vec::new(),
        };
        assert(p@.allowed_schemes =~= seq!["https"@, "http"@]);
        p
    }

    /// Restricts this policy to `hosts` and their subdomains.
    pub fn with_allowed_hosts(self, hosts: &[&str]) -> (p: Self)
        ensures
            p@.allowed_schemes == self@.allowed_schemes,
            p@.allow_private_networks == self@.allow_private_networks,
            p@.allowed_hosts == hosts@.map_values(|h: &str| h@),
    {
        let mut list: Vec<String> = Vec::new();
        let mut i: usize = 0;
        while i < hosts.len()
            invariant
                i <= hosts@.len(),
                list@.map_values(|s: String| s@) == hosts@.subrange(0, i as int).map_values(
                    |h: &str| h@,
                ),
            decreases hosts@.len() - i,
        {
            let ghost before = list@;
            let item = hosts[i].to_owned();
            assert(item@ == hosts@[i as int]@);
            list.push(item);
            assert(list@ =~= before.push(item));
            assert(list@.map_values(|s: String| s@) =~= before.map_values(|s: String| s@).push(
                item@,
            ));
            assert(hosts@.subrange(0, i + 1).map_values(|h: &str| h@) =~= hosts@.subrange(
                0,
                i as int,
            ).map_values(|h: &str| h@).push(hosts@[i as int]@));
            i = i + 1;
        }
        assert(hosts@.subrange(0, hosts@.len() as int) =~= hosts@);
        UrlPolicy {
            allowed_schemes: self.allowed_schemes,
            allow_private_networks: self.allow_private_networks,
            allowed_hosts: list,
        }
    }

    /// Allows plain `http` in addition to whatever is already allowed.
    pub fn allowing_http(self) -> (p: Self)
        ensures
            p@.allowed_schemes == if self@.allowed_schemes.contains("http"@) {
                self@.allowed_schemes
            } else {
                self@.allowed_schemes.push("http"@)
            },
            p@.allow_private_networks == self@.allow_private_networks,
            p@.allowed_hosts == self@.allowed_hosts,
    {
        let mut p = self;
        if !contains_string(&p.allowed_schemes, "http") {
            let ghost before = p.allowed_schemes@;
            p.allowed_schemes.push("http".to_owned());
            assert(p.allowed_schemes@.map_values(|s: String| s@) =~= before.map_values(
                |s: String| s@,
            ).push("http"@));
        }
        p
    }

    /// Allows targets on private and loopback networks.
    pub fn allowing_private_networks(self) -> (p: Self)
        ensures
            p@.allowed_schemes == self@.allowed_schemes,
            p@.allow_private_networks,
            p@.allowed_hosts == self@.allowed_hosts,
    {
        let mut p = self;
        p.allow_private_networks = true;
        p
    }

    /// Checks `url` against this policy, naming the rule that rejected it.
    pub fn check(&self, url: &Url) -> (res: Result<(), UrlRefused>)
        ensures
            res is Ok <==> policy_refusal(self@, url@) is None,
            res matches Err(e) ==> Some(e.spec_message()) == policy_refusal(self@, url@),
    {
        let parsed = match url.parse() {
            Ok(p) => p,
            Err(e) => {
                return Err(UrlRefused(e.to_string()));
            },
        };
        if !contains_string(&self.allowed_schemes, parsed.scheme.as_str()) {
            let mut m = String::new();
            push_str(&mut m, "scheme ");
            push_debug_str(&mut m, parsed.scheme.as_str());
            push_str(&mut m, " is not allowed (allowed: ");
            let joined_text = join_strings(&self.allowed_schemes);
            push_str(&mut m, joined_text.as_str());
            push_str(&mut m, ")");
            return Err(UrlRefused(m));
        }
        match &parsed.host {
            None => {
                let mut m = String::new();
                push_str(&mut m, "URL has no host");
                Err(UrlRefused(m))
            },
            Some(host) => {
                if !self.allow_private_networks && private_host(host) {
                    let mut m = String::new();
                    push_str(&mut m, parsed.host_text.as_str());
                    push_str(&mut m, " is on a private or loopback network");
                    return Err(UrlRefused(m));
                }
                if self.allowed_hosts.len() != 0 {
                    let mut i: usize = 0;
                    let mut ok = false;
                    while i < self.allowed_hosts.len()
                        invariant
                            i <= self.allowed_hosts@.len(),
                            ok == exists|j: int|
                                0 <= j < i && host_matches(
                                    encode_utf8(parsed.host_text@),
                                    encode_utf8(#[trigger] self@.allowed_hosts[j]),
                                ),
                        decreases self.allowed_hosts@.len() - i,
                    {
                        let m = host_matches_exec(
                            parsed.host_text.as_str(),
                            self.allowed_hosts[i].as_str(),
                        );
                        assert(self@.allowed_hosts[i as int] == self.allowed_hosts@[i as int]@);
                        if m {
                            ok = true;
                        }
                        i = i + 1;
                    }
                    if !ok {
                        let mut m = String::new();
                        push_str(&mut m, "host ");
                        push_debug_str(&mut m, parsed.host_text.as_str());
                        push_str(&mut m, " is not in the allow-list");
                        return Err(UrlRefused(m));
                    }
                }
                Ok(())
            },
        }
    }
}

impl Default for UrlPolicy {
    fn default() -> (p: Self)
        ensures
            p@.allowed_schemes == seq!["https"@],
            !p@.allow_private_networks,
            p@.allowed_hosts.len() == 0,
    {
        Self::default_policy()
    }
}

/// Whether `list` holds `value`.
fn contains_string(list: &Vec<String>, value: &str) -> (r: bool)
    ensures
        r == list@.map_values(|s: String| s@).contains(value@),
{
    let ghost names = list@.map_values(|s: String| s@);
    let mut i: usize = 0;
    while i < list.len()
        invariant
            i <= list@.len(),
            names == list@.map_values(|s: String| s@),
            forall|j: int| 0 <= j < i ==> names[j] != value@,
        decreases list@.len() - i,
    {
        if str_eq(list[i].as_str(), value) {
            assert(names[i as int] == value@);
            return true;
        }
        i = i + 1;
    }
    false
}

/// The strings of `list` joined with `", "`.
fn join_strings(list: &Vec<String>) -> (s: String)
    ensures
        s@ == joined(list@.map_values(|s: String| s@)),
{
    let ghost names = list@.map_values(|s: String| s@);
    let mut s = String::new();
    let mut i: usize = 0;
    while i < list.len()
        invariant
            i <= list@.len(),
            names == list@.map_values(|s: String| s@),
            s@ == joined(names.subrange(0, i as int)),
        decreases list@.len() - i,
    {
        proof {
            assert(names.subrange(0, i + 1).drop_last() =~= names.subrange(0, i as int));
        }
        if i > 0 {
            push_str(&mut s, ", ");
        }
        push_str(&mut s, list[i].as_str());
        proof {
            if i == 0 {
                assert(joined(names.subrange(0, 1)) == names[0]);
            }
            assert(s@ =~= joined(names.subrange(0, i + 1)));
        }
        i = i + 1;
    }
    assert(names.subrange(0, list@.len() as int) =~= names);
    s
}

} // verus!
