//! Credentials tokens: the `Authorization: Token <base64>` header, done carefully.
//!
//! A token never shows itself in text this library writes (`to_string` gives `Token(****ab12)`),
//! compares in constant time, and reaches the wire only through the header value or the
//! `Credentials.token` field.

use vstd::prelude::*;
use vstd::utf8::{decode_utf8, encode_utf8, encode_utf8_decode_utf8, encode_utf8_valid_utf8, valid_utf8};

use base64::Engine;
use subtle::ConstantTimeEq;

use crate::protocol::ModuleId;
use crate::strings::{
    chars_of, dec_digits, eq_ignore_ascii_case, hex_padded, is_unicode_whitespace,
    trim_leading_whitespace, unicode_whitespace, push_char, push_decimal,
    push_hex_padded, push_str, str_eq_ignore_case, string_from_chars,
};
use crate::types::string::OcpiString;
use crate::types::validate::{Validate, Validator, ViolationCode, ViolationView};

verus! {

/// The `Authorization` header value prefix OCPI uses.
pub const TOKEN_PREFIX: &'static str = "Token ";

/// Why a header was refused when it is not Base64 and the bare form is not accepted.
pub const NOT_BASE64: &'static str = "Authorization header is not Base64-encoded as OCPI 2.2-d2 and later require; set Quirks::accept_unencoded_token for peers that predate that";

/// A character the specification allows in a token: printable non-whitespace ASCII,
/// U+0021 to U+007E.
pub open spec fn is_token_char(c: char) -> bool {
    '!' <= c <= '~'
}

/// Whether every character of `s` is allowed in a token.
pub open spec fn all_token_chars(s: Seq<char>) -> bool {
    forall|i: int| 0 <= i < s.len() ==> is_token_char(#[trigger] s[i])
}

/// Whether `s` is a conformant token: not empty, `string(64)`, of allowed characters.
pub open spec fn token_conformant(s: Seq<char>) -> bool {
    0 < s.len() <= 64 && all_token_chars(s)
}

/// The index of the first character of `s` that a token may not contain.
pub open spec fn first_non_token_char(s: Seq<char>) -> int {
    choose|i: int|
        0 <= i < s.len() && !is_token_char(s[i]) && forall|j: int|
            0 <= j < i ==> is_token_char(#[trigger] s[j])
}

/// Why `s` is not a token: empty, too long, or the first character outside the set, as
/// `U+` and four upper-case hexadecimal digits.
pub open spec fn token_error(s: Seq<char>) -> Seq<char> {
    if s.len() == 0 {
        "a credentials token cannot be empty"@
    } else if s.len() > 64 {
        "a credentials token is string(64); this one has "@ + dec_digits(s.len()) + " characters"@
    } else {
        "a credentials token may only contain U+0021..U+007E; found U+"@ + hex_padded(
            (s[first_non_token_char(s)] as u32) as nat,
            4,
        )
    }
}

/// The index of the first space of `s`, if it has one.
pub open spec fn first_space(s: Seq<char>) -> Option<int> {
    if exists|i: int| 0 <= i < s.len() && s[i] == ' ' {
        Some(choose|i: int| 0 <= i < s.len() && s[i] == ' ' && forall|j: int| 0 <= j < i ==> s[j] != ' ')
    } else {
        None
    }
}

/// What follows the `Token` scheme of an `Authorization` value, leading whitespace removed: the
/// scheme is everything before the first space and matches `Token` ignoring ASCII case.
pub open spec fn after_token_scheme(value: Seq<char>) -> Option<Seq<char>> {
    match first_space(value) {
        None => None,
        Some(i) => if str_eq_ignore_case(value.subrange(0, i), "Token"@) {
            Some(trim_leading_whitespace(value.subrange(i + 1, value.len() as int)))
        } else {
            None
        },
    }
}

/// What `base64`'s `STANDARD` engine decodes `s` to, if it is valid padded Base64.
pub uninterp spec fn base64_standard_decoded(s: Seq<char>) -> Option<Seq<u8>>;

/// What `base64`'s `STANDARD_NO_PAD` engine decodes `s` to, if it is valid unpadded Base64.
pub uninterp spec fn base64_unpadded_decoded(s: Seq<char>) -> Option<Seq<u8>>;

/// What `base64`'s `STANDARD` engine encodes `b` as.
pub uninterp spec fn base64_standard_encoded(b: Seq<u8>) -> Seq<char>;

/// The token Base64 text carries: padded or unpadded Base64 of UTF-8 that is a non-empty run of
/// allowed characters. A header that merely looks like Base64 decodes to something else.
pub open spec fn token_in_base64(
    rest: Seq<char>,
    padded: Option<Seq<u8>>,
    unpadded: Option<Seq<u8>>,
) -> Option<Seq<char>> {
    let bytes = match padded {
        Some(b) => Some(b),
        None => unpadded,
    };
    match bytes {
        Some(b) => if valid_utf8(b) && decode_utf8(b).len() > 0 && all_token_chars(decode_utf8(b)) {
            Some(decode_utf8(b))
        } else {
            None
        },
        None => None,
    }
}

/// What reading an `Authorization` header gives, for given results of the two Base64 decodings
/// of what follows the scheme: the token, or why the header is refused.
pub open spec fn header_outcome(
    value: Seq<char>,
    accept_unencoded: bool,
    padded: Option<Seq<u8>>,
    unpadded: Option<Seq<u8>>,
) -> Result<Seq<char>, Seq<char>> {
    match after_token_scheme(value) {
        None => Err("Authorization header does not start with \"Token \""@),
        Some(rest) => if rest.len() == 0 {
            Err("Authorization header has no token"@)
        } else {
            match token_in_base64(rest, padded, unpadded) {
                Some(t) => Ok(t),
                None => if accept_unencoded {
                    if token_conformant(rest) {
                        Ok(rest)
                    } else {
                        Err(token_error(rest))
                    }
                } else {
                    Err(NOT_BASE64@)
                },
            }
        },
    }
}

/// The bytes of an optional buffer.
pub open spec fn bytes_view(b: Option<Vec<u8>>) -> Option<Seq<u8>> {
    match b {
        Some(v) => Some(v@),
        None => None,
    }
}

/// The token an `Authorization` header carries, or why it is refused.
pub open spec fn parse_header_outcome(value: Seq<char>, accept_unencoded: bool) -> Result<
    Seq<char>,
    Seq<char>,
> {
    match after_token_scheme(value) {
        Some(rest) => header_outcome(
            value,
            accept_unencoded,
            base64_standard_decoded(rest),
            base64_unpadded_decoded(rest),
        ),
        None => header_outcome(value, accept_unencoded, None, None),
    }
}

/// A character of the standard Base64 alphabet, or its padding.
pub open spec fn is_base64_char(c: char) -> bool {
    ('A' <= c <= 'Z') || ('a' <= c <= 'z') || ('0' <= c <= '9') || c == '+' || c == '/' || c == '='
}

/// Base64-encodes bytes with the standard alphabet and padding.
///
/// Trusted: `base64::engine::general_purpose::STANDARD.encode`, a function of the bytes alone,
/// named by [`base64_standard_encoded`]. As the crate documents, it writes only characters of the
/// standard alphabet and `=`, four for every three bytes begun (so something for any bytes at
/// all), and `STANDARD.decode` gives the bytes back.
#[verifier::external_body]
fn base64_encode(bytes: &[u8]) -> (r: String)
    ensures
        r@ == base64_standard_encoded(bytes@),
        forall|i: int| 0 <= i < r@.len() ==> is_base64_char(#[trigger] r@[i]),
        bytes@.len() > 0 ==> r@.len() > 0,
        base64_standard_decoded(r@) == Some(bytes@),
{
    base64::engine::general_purpose::STANDARD.encode(bytes)
}

/// Decodes padded standard Base64.
///
/// Trusted: `base64::engine::general_purpose::STANDARD.decode`, a function of the text alone,
/// named by [`base64_standard_decoded`]; an error is `None`.
#[verifier::external_body]
fn base64_decode_padded(text: &str) -> (r: Option<Vec<u8>>)
    ensures
        match base64_standard_decoded(text@) {
            Some(b) => r matches Some(v) && v@ == b,
            None => r is None,
        },
{
    base64::engine::general_purpose::STANDARD.decode(text).ok()
}

/// Decodes unpadded standard Base64.
///
/// Trusted: `base64::engine::general_purpose::STANDARD_NO_PAD.decode`, named by
/// [`base64_unpadded_decoded`]; an error is `None`.
#[verifier::external_body]
fn base64_decode_unpadded(text: &str) -> (r: Option<Vec<u8>>)
    ensures
        match base64_unpadded_decoded(text@) {
            Some(b) => r matches Some(v) && v@ == b,
            None => r is None,
        },
{
    base64::engine::general_purpose::STANDARD_NO_PAD.decode(text).ok()
}

/// Reads bytes as UTF-8.
///
/// Trusted: `String::from_utf8`, which succeeds exactly when the bytes are valid UTF-8 and then
/// holds the characters they encode.
#[verifier::external_body]
fn utf8_string(bytes: Vec<u8>) -> (r: Option<String>)
    ensures
        r is Some <==> valid_utf8(bytes@),
        r matches Some(s) ==> s@ == decode_utf8(bytes@),
{
    String::from_utf8(bytes).ok()
}

/// Compares two byte strings of equal length in constant time.
///
/// Trusted: `subtle::ConstantTimeEq::ct_eq` on slices, which gives a `Choice` of one exactly
/// when every byte is equal, and `bool::from` on it.
#[verifier::external_body]
fn constant_time_eq(a: &[u8], b: &[u8]) -> (r: bool)
    requires
        a@.len() == b@.len(),
    ensures
        r == (a@ == b@),
{
    bool::from(a.ct_eq(b))
}

/// A fresh random token: a hyphenated UUID v4.
///
/// Trusted: `uuid::Uuid::new_v4` and its `Display`, which writes 32 lower-case hexadecimal
/// digits in groups of 8, 4, 4, 4 and 12 separated by hyphens. The digits are random.
#[verifier::external_body]
pub(crate) fn random_uuid_text() -> (r: String)
    ensures
        r@.len() == 36,
        forall|i: int| 0 <= i < 36 ==> ('0' <= #[trigger] r@[i] <= '9' || 'a' <= r@[i] <= 'f' || r@[i] == '-'),
{
    uuid::Uuid::new_v4().to_string()
}

/// Whether a character is allowed in a token.
fn token_char(c: char) -> (r: bool)
    ensures
        r == is_token_char(c),
{
    '!' <= c && c <= '~'
}

/// A header value made of `Token `, then Base64 text of a conformant token that decodes back to
/// the token's UTF-8, reads back as that token.
proof fn lemma_header_reads_back(t: Seq<char>, enc: Seq<char>, value: Seq<char>)
    requires
        token_conformant(t),
        value == "Token "@ + enc,
        forall|i: int| 0 <= i < enc.len() ==> is_base64_char(#[trigger] enc[i]),
        enc.len() > 0,
        base64_standard_decoded(enc) == Some(encode_utf8(t)),
    ensures
        forall|accept: bool| #[trigger] parse_header_outcome(value, accept) == Ok::<Seq<char>, Seq<char>>(t),
{
    broadcast use encode_utf8_valid_utf8, encode_utf8_decode_utf8;

    reveal_strlit("Token ");
    reveal_strlit("Token");
    assert(value[5] == ' ');
    assert(forall|j: int| 0 <= j < 5 ==> value[j] != ' ');
    assert(first_space(value) == Some(5int)) by {
        let k = choose|i: int| 0 <= i < value.len() && value[i] == ' ' && forall|j: int| 0 <= j < i ==> value[j] != ' ';
        assert(0 <= 5 < value.len() && value[5] == ' ' && forall|j: int| 0 <= j < 5 ==> value[j] != ' ');
        if k < 5 {
            assert(value[k] != ' ');
        } else if k > 5 {
            assert(value[5] != ' ');
        }
    }
    assert(value.subrange(0, 5) =~= "Token"@);
    assert(str_eq_ignore_case("Token"@, "Token"@));
    assert(value.subrange(6, value.len() as int) =~= enc);
    assert(!is_unicode_whitespace(enc[0])) by {
        assert(is_base64_char(enc[0]));
    }
    assert(trim_leading_whitespace(enc) == enc);
    assert(after_token_scheme(value) == Some(enc));
    assert(decode_utf8(encode_utf8(t)) == t);
    assert(token_in_base64(enc, Some(encode_utf8(t)), base64_unpadded_decoded(enc)) == Some(t));
}

/// A credentials token: the shared secret two platforms authenticate each other with.
pub struct CredentialsToken(String);

impl View for CredentialsToken {
    type V = Seq<char>;

    closed spec fn view(&self) -> Seq<char> {
        self.0@
    }
}

impl Clone for CredentialsToken {
    fn clone(&self) -> (r: Self)
        ensures
            r@ == self@,
    {
        CredentialsToken(self.0.clone())
    }
}

/// Why a string is not a usable credentials token.
#[derive(Clone, Debug, PartialEq, Eq)]
pub struct InvalidToken(String);

impl InvalidToken {
    /// The explanation.
    pub closed spec fn spec_message(&self) -> Seq<char> {
        self.0@
    }

    /// The message, as it is displayed.
    pub fn to_string(&self) -> (s: String)
        ensures
            s@ == "invalid credentials token: "@ + self.spec_message(),
    {
        let mut s = String::new();
        push_str(&mut s, "invalid credentials token: ");
        push_str(&mut s, self.0.as_str());
        s
    }
}

/// The redacted rendering of a token: `****` and its last four characters.
pub open spec fn token_hint(s: Seq<char>) -> Seq<char> {
    "****"@ + s.subrange(if s.len() >= 4 { s.len() - 4 } else { 0 }, s.len() as int)
}

/// Why `value` is refused as a token, if it is.
fn check_token(value: &str) -> (r: Option<String>)
    ensures
        r is None <==> token_conformant(value@),
        r matches Some(m) ==> m@ == token_error(value@),
{
    let chars = chars_of(value);
    let n = chars.len();
    if n == 0 {
        return Some(String::from_str("a credentials token cannot be empty"));
    }
    if n > 64 {
        let mut m = String::new();
        push_str(&mut m, "a credentials token is string(64); this one has ");
        push_decimal(&mut m, n as u64);
        push_str(&mut m, " characters");
        return Some(m);
    }
    let mut i: usize = 0;
    while i < n
        invariant
            i <= n,
            0 < n <= 64,
            n == value@.len(),
            chars@ == value@,
            forall|j: int| 0 <= j < i ==> is_token_char(#[trigger] value@[j]),
        decreases n - i,
    {
        if !token_char(chars[i]) {
            proof {
                let k = first_non_token_char(value@);
                assert(exists|x: int|
                    0 <= x < value@.len() && !is_token_char(value@[x]) && forall|j: int|
                        0 <= j < x ==> is_token_char(#[trigger] value@[j])) by {
                    assert(0 <= i < value@.len() && !is_token_char(value@[i as int]));
                }
                if k < i {
                    assert(is_token_char(value@[k]));
                }
                if k > i {
                    assert(is_token_char(value@[i as int]));
                }
                assert(k == i);
            }
            let code = chars[i] as u32;
            let mut m = String::new();
            push_str(&mut m, "a credentials token may only contain U+0021..U+007E; found U+");
            push_hex_padded(&mut m, code as u64, 4);
            return Some(m);
        }
        i = i + 1;
    }
    None
}

impl CredentialsToken {
    /// The maximum length the specification gives: `string(64)`.
    pub const MAX_LEN: usize = 64;

    /// Creates a token, enforcing the character set and the length: not empty, at most 64
    /// characters, each from U+0021 to U+007E (which excludes the space).
    pub fn new(value: &str) -> (res: Result<Self, InvalidToken>)
        ensures
            res is Ok <==> token_conformant(value@),
            res matches Ok(t) ==> t@ == value@,
            res matches Err(e) ==> e.spec_message() == token_error(value@),
    {
        match check_token(value) {
            Some(m) => Err(InvalidToken(m)),
            None => Ok(CredentialsToken(String::from_str(value))),
        }
    }

    /// Creates a token without enforcing anything, for values read off the wire.
    pub fn new_lenient(value: &str) -> (t: Self)
        ensures
            t@ == value@,
    {
        CredentialsToken(String::from_str(value))
    }

    /// Generates a fresh random token: a hyphenated UUID v4, as the specification's own examples
    /// use. It is always conformant.
    pub fn generate() -> (t: Self)
        ensures
            token_conformant(t@),
            t@.len() == 36,
    {
        let text = random_uuid_text();
        proof {
            assert forall|i: int| 0 <= i < text@.len() implies is_token_char(#[trigger] text@[i]) by {
                assert('0' <= text@[i] <= '9' || 'a' <= text@[i] <= 'f' || text@[i] == '-');
            }
        }
        CredentialsToken(text)
    }

    /// The token in cleartext, named to be conspicuous at a call site.
    pub fn expose_secret(&self) -> (s: &str)
        ensures
            s@ == self@,
    {
        self.0.as_str()
    }

    /// The token as the `string(64)` that goes into a `Credentials` object body.
    pub fn to_credentials_field(&self) -> (s: OcpiString<64>)
        ensures
            s@ == self@,
    {
        OcpiString::new_lenient(self.0.as_str())
    }

    /// The full `Authorization` header value: `Token ` and the Base64 of the token's UTF-8, as
    /// the specification requires.
    ///
    /// A conformant token reads back from the value unchanged, whether or not unencoded tokens
    /// are accepted.
    pub fn to_header_value(&self) -> (s: String)
        ensures
            s@ == "Token "@ + base64_standard_encoded(encode_utf8(self@)),
            token_conformant(self@) ==> forall|accept: bool|
                #[trigger] parse_header_outcome(s@, accept) == Ok::<Seq<char>, Seq<char>>(self@),
    {
        let encoded = base64_encode(self.0.as_str().as_bytes());
        let mut s = String::from_str(TOKEN_PREFIX);
        push_str(&mut s, encoded.as_str());
        proof {
            if token_conformant(self@) {
                lemma_header_reads_back(self@, encoded@, s@);
            }
        }
        s
    }

    /// The `Authorization` header value without Base64, for peers that predate 2.2-d2.
    pub fn to_header_value_unencoded(&self) -> (s: String)
        ensures
            s@ == "Token "@ + self@,
    {
        let mut s = String::from_str(TOKEN_PREFIX);
        push_str(&mut s, self.0.as_str());
        s
    }

    /// Parses an `Authorization` header value. The scheme (everything before the first space)
    /// must be `Token` in any case. What follows, leading whitespace removed, is read as padded
    /// or unpadded Base64 of a token; failing that it is taken literally when `accept_unencoded`
    /// allows, and refused otherwise.
    pub fn parse_header(value: &str, accept_unencoded: bool) -> (res: Result<Self, InvalidToken>)
        ensures
            match parse_header_outcome(value@, accept_unencoded) {
                Ok(t) => res matches Ok(tok) && tok@ == t,
                Err(m) => res matches Err(e) && e.spec_message() == m,
            },
    {
        let (padded, unpadded) = match strip_token_prefix(value) {
            Some(rest) => (base64_decode_padded(rest.as_str()), base64_decode_unpadded(rest.as_str())),
            None => (None, None),
        };
        Self::from_header_decodings(value, accept_unencoded, padded, unpadded)
    }

    /// Reads an `Authorization` header value, given what the padded and the unpadded Base64
    /// decodings of the text after the scheme gave: the token they carry when one of them is
    /// UTF-8 of allowed characters, else the literal text when `accept_unencoded` allows.
    pub fn from_header_decodings(
        value: &str,
        accept_unencoded: bool,
        padded: Option<Vec<u8>>,
        unpadded: Option<Vec<u8>>,
    ) -> (res: Result<Self, InvalidToken>)
        ensures
            match header_outcome(value@, accept_unencoded, bytes_view(padded), bytes_view(unpadded)) {
                Ok(t) => res matches Ok(tok) && tok@ == t,
                Err(m) => res matches Err(e) && e.spec_message() == m,
            },
    {
        let rest = match strip_token_prefix(value) {
            Some(r) => r,
            None => return Err(
                InvalidToken(String::from_str("Authorization header does not start with \"Token \"")),
            ),
        };
        if rest.unicode_len() == 0 {
            return Err(InvalidToken(String::from_str("Authorization header has no token")));
        }
        let decoded = match padded {
            Some(b) => Some(b),
            None => unpadded,
        };
        match decoded {
            Some(bytes) => match utf8_string(bytes) {
                Some(text) => {
                    if text.as_str().unicode_len() > 0 && all_token_chars_exec(text.as_str()) {
                        return Ok(CredentialsToken(text));
                    }
                },
                None => {},
            },
            None => {},
        }
        if accept_unencoded {
            return Self::new(rest.as_str());
        }
        Err(InvalidToken(String::from_str(NOT_BASE64)))
    }

    /// Whether this value satisfies the character set and length the specification gives.
    pub fn is_conformant(&self) -> (r: bool)
        ensures
            r == token_conformant(self@),
    {
        check_token(self.0.as_str()).is_none()
    }

    /// A fingerprint for logging without disclosure: `****` and the last four characters.
    pub fn hint(&self) -> (s: String)
        ensures
            s@ == token_hint(self@),
    {
        let chars = chars_of(self.0.as_str());
        let n = chars.len();
        let from = if n >= 4 {
            n - 4
        } else {
            0
        };
        let tail = string_from_chars(&chars, from, n);
        let mut s = String::from_str("****");
        push_str(&mut s, tail.as_str());
        s
    }

    /// The redacted rendering: `Token(****ab12)`. The secret itself is never written.
    pub fn to_string(&self) -> (s: String)
        ensures
            s@ == "Token("@ + token_hint(self@) + ")"@,
    {
        let mut s = String::from_str("Token(");
        let h = self.hint();
        push_str(&mut s, h.as_str());
        push_str(&mut s, ")");
        s
    }
}

/// Whether every character of `s` is allowed in a token.
fn all_token_chars_exec(s: &str) -> (r: bool)
    ensures
        r == all_token_chars(s@),
{
    let chars = chars_of(s);
    let n = chars.len();
    let mut i: usize = 0;
    while i < n
        invariant
            i <= n,
            n == s@.len(),
            chars@ == s@,
            forall|j: int| 0 <= j < i ==> is_token_char(#[trigger] s@[j]),
        decreases n - i,
    {
        if !token_char(chars[i]) {
            assert(!is_token_char(s@[i as int]));
            return false;
        }
        i = i + 1;
    }
    true
}

/// What follows the `Token` scheme, leading whitespace removed.
fn strip_token_prefix(value: &str) -> (r: Option<String>)
    ensures
        match after_token_scheme(value@) {
            Some(rest) => r matches Some(s) && s@ == rest,
            None => r is None,
        },
{
    let chars = chars_of(value);
    let n = chars.len();
    let mut i: usize = 0;
    while i < n
        invariant
            i <= n,
            n == value@.len(),
            chars@ == value@,
            forall|j: int| 0 <= j < i ==> value@[j] != ' ',
        ensures
            i <= n,
            forall|j: int| 0 <= j < i ==> value@[j] != ' ',
            i < n ==> value@[i as int] == ' ',
        decreases n - i,
    {
        if chars[i] == ' ' {
            break;
        }
        i = i + 1;
    }
    if i == n {
        return None;
    }
    proof {
        let k = first_space(value@)->0;
        assert(first_space(value@) is Some);
        if k < i {
            assert(value@[k] != ' ');
        }
        if k > i {
            assert(value@[i as int] != ' ');
        }
        assert(k == i);
    }
    let scheme = string_from_chars(&chars, 0, i);
    if !eq_ignore_ascii_case(scheme.as_str(), "Token") {
        return None;
    }
    let mut start = i + 1;
    let ghost tail = value@.subrange(i + 1, n as int);
    while start < n && unicode_whitespace(chars[start])
        invariant
            i + 1 <= start <= n,
            n == value@.len(),
            chars@ == value@,
            tail == value@.subrange(i + 1, n as int),
            trim_leading_whitespace(tail) == trim_leading_whitespace(
                value@.subrange(start as int, n as int),
            ),
        decreases n - start,
    {
        proof {
            let rest = value@.subrange(start as int, n as int);
            assert(rest.drop_first() =~= value@.subrange(start + 1, n as int));
        }
        start = start + 1;
    }
    let rest = string_from_chars(&chars, start, n);
    proof {
        let r = value@.subrange(start as int, n as int);
        if r.len() > 0 {
            assert(r[0] == value@[start as int]);
        }
    }
    Some(rest)
}

impl PartialEq for CredentialsToken {
    /// Constant-time comparison: comparing the lengths first leaks only the length, which the
    /// Base64 in the header already reveals.
    fn eq(&self, other: &Self) -> (r: bool) {
        let a = self.0.as_str().as_bytes();
        let b = other.0.as_str().as_bytes();
        let same = a.len() == b.len() && constant_time_eq(a, b);
        proof {
            broadcast use vstd::utf8::encode_utf8_decode_utf8;

            if a@ == b@ {
                assert(decode_utf8(encode_utf8(self@)) == decode_utf8(encode_utf8(other@)));
            }
        }
        same
    }
}

impl vstd::std_specs::cmp::PartialEqSpecImpl for CredentialsToken {
    open spec fn obeys_eq_spec() -> bool {
        true
    }

    open spec fn eq_spec(&self, other: &Self) -> bool {
        self@ == other@
    }
}

impl Eq for CredentialsToken {
}

impl core::str::FromStr for CredentialsToken {
    type Err = InvalidToken;

    fn from_str(s: &str) -> (res: Result<Self, Self::Err>)
        ensures
            res is Ok <==> token_conformant(s@),
            res matches Ok(t) ==> t@ == s@,
            res matches Err(e) ==> e.spec_message() == token_error(s@),
    {
        Self::new(s)
    }
}

/// The warning a non-conformant token is reported with.
pub const TOKEN_RULE: &'static str = "a credentials token is string(64) of U+0021..U+007E";

impl Validate for CredentialsToken {
    open spec fn violations(&self) -> Seq<ViolationView> {
        if token_conformant(self@) {
            Seq::empty()
        } else {
            seq![(Seq::empty(), ViolationCode::IllegalCharacter, TOKEN_RULE@)]
        }
    }

    fn validate_in(&self, v: &mut Validator)
        ensures
            final(v)@ == if token_conformant(self@) {
                old(v)@
            } else {
                old(v)@.push((Seq::empty(), ViolationCode::IllegalCharacter, TOKEN_RULE@))
            },
    {
        if !self.is_conformant() {
            v.report(ViolationCode::IllegalCharacter, String::from_str(TOKEN_RULE));
        }
    }
}

/// Which token of the registration handshake a value is.
#[derive(Clone, Copy, Debug, PartialEq, Eq, Hash, Structural)]
pub enum TokenRole {
    /// `CREDENTIALS_TOKEN_A`: the bootstrap token, valid only for `credentials` and `versions`.
    A,
    /// `CREDENTIALS_TOKEN_B`: the token the Sender gives the Receiver in the POST.
    B,
    /// `CREDENTIALS_TOKEN_C`: the token the Receiver returns, used for everything afterwards.
    C,
}

/// Whether a request authenticated with a token of this role may address `module`: Token A only
/// `credentials` and `versions`, the others everything.
pub open spec fn role_may_access(role: TokenRole, module: ModuleId) -> bool {
    match role {
        TokenRole::A => module == ModuleId::Credentials || module == ModuleId::Versions,
        _ => true,
    }
}

impl TokenRole {
    /// Whether a request authenticated with this token may address `module`.
    pub fn may_access(self, module: &ModuleId) -> (r: bool)
        ensures
            r == role_may_access(self, *module),
    {
        match self {
            TokenRole::A => match module {
                ModuleId::Credentials | ModuleId::Versions => true,
                _ => false,
            },
            _ => true,
        }
    }
}

} // verus!
