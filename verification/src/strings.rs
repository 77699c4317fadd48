//! Small text-building helpers shared by the rest of the crate.

use std::fmt::Write;

use vstd::prelude::*;
use vstd::utf8::*;

verus! {

/// Appends one character.
///
/// Trusted: `String::push` appends `c` to the end of the string, as its documentation states.
#[verifier::external_body]
pub(crate) fn push_char(s: &mut String, c: char)
    ensures
        final(s)@ == old(s)@.push(c),
{
    s.push(c);
}

/// Appends a string slice.
pub fn push_str(s: &mut String, t: &str)
    ensures
        final(s)@ == old(s)@ + t@,
{
    s.append(t);
}

/// The characters of `s`, in order.
pub fn chars_of(s: &str) -> (v: Vec<char>)
    ensures
        v@ == s@,
{
    let n = s.unicode_len();
    let mut v: Vec<char> = Vec::new();
    let mut i: usize = 0;
    while i < n
        invariant
            n == s@.len(),
            i <= n,
            v@ == s@.subrange(0, i as int),
        decreases n - i,
    {
        let c = s.get_char(i);
        v.push(c);
        i = i + 1;
    }
    v
}


/// The ASCII digit for `d`, which is below ten.
pub open spec fn digit_char(d: nat) -> char {
    (48 + d) as char
}

/// The decimal representation of `n`, most significant digit first, with no leading zeros.
pub open spec fn dec_digits(n: nat) -> Seq<char>
    decreases n,
{
    if n < 10 {
        seq![digit_char(n)]
    } else {
        dec_digits(n / 10).push(digit_char(n % 10))
    }
}

/// The upper-case hexadecimal digit for `d`, which is below sixteen.
pub open spec fn hex_char(d: nat) -> char {
    if d < 10 {
        (48 + d) as char
    } else {
        (55 + d) as char
    }
}

/// The upper-case hexadecimal representation of `n`, with no leading zeros.
pub open spec fn hex_digits(n: nat) -> Seq<char>
    decreases n,
{
    if n < 16 {
        seq![hex_char(n)]
    } else {
        hex_digits(n / 16).push(hex_char(n % 16))
    }
}

/// `count` zero characters.
pub open spec fn zeros(count: int) -> Seq<char> {
    Seq::new(if count > 0 { count as nat } else { 0 }, |i: int| '0')
}

/// `n` in upper-case hexadecimal, left-padded with zeros to at least `width` digits.
pub open spec fn hex_padded(n: nat, width: nat) -> Seq<char> {
    zeros(width - hex_digits(n).len()) + hex_digits(n)
}

/// The two upper-case hexadecimal digits of a byte.
pub open spec fn hex_byte(b: u8) -> Seq<char> {
    seq![hex_char(b as nat / 16), hex_char(b as nat % 16)]
}

fn digit(d: u64) -> (c: char)
    requires
        d < 10,
    ensures
        c == digit_char(d as nat),
{
    ((d as u8) + 48u8) as char
}

fn hex_digit(d: u64) -> (c: char)
    requires
        d < 16,
    ensures
        c == hex_char(d as nat),
{
    if d < 10 {
        ((d as u8) + 48u8) as char
    } else {
        ((d as u8) + 55u8) as char
    }
}

/// Appends the decimal representation of `n`.
pub fn push_decimal(s: &mut String, n: u64)
    ensures
        final(s)@ == old(s)@ + dec_digits(n as nat),
    decreases n,
{
    if n >= 10 {
        push_decimal(s, n / 10);
    }
    let c = digit(n % 10);
    push_char(s, c);
    assert(final(s)@ =~= old(s)@ + dec_digits(n as nat));
}

/// The decimal representation of `n` as a new string.
pub fn decimal_string(n: u64) -> (s: String)
    ensures
        s@ == dec_digits(n as nat),
{
    let mut s = String::new();
    push_decimal(&mut s, n);
    assert(s@ =~= dec_digits(n as nat));
    s
}

/// Appends the upper-case hexadecimal representation of `n`.
pub fn push_hex(s: &mut String, n: u64)
    ensures
        final(s)@ == old(s)@ + hex_digits(n as nat),
    decreases n,
{
    if n >= 16 {
        push_hex(s, n / 16);
    }
    let c = hex_digit(n % 16);
    push_char(s, c);
    assert(final(s)@ =~= old(s)@ + hex_digits(n as nat));
}

/// Appends `n` in upper-case hexadecimal, padded with zeros to at least `width` digits.
pub fn push_hex_padded(s: &mut String, n: u64, width: usize)
    ensures
        final(s)@ == old(s)@ + hex_padded(n as nat, width as nat),
{
    let mut h = String::new();
    push_hex(&mut h, n);
    assert(h@ =~= hex_digits(n as nat));
    let len = h.as_str().unicode_len();
    let ghost start = s@;
    let mut k: usize = len;
    while k < width
        invariant
            len == hex_digits(n as nat).len(),
            len <= k,
            k == len || k <= width,
            s@ == start + zeros(k - len),
        decreases width - k,
    {
        push_char(s, '0');
        assert(s@ =~= start + zeros(k + 1 - len));
        k = k + 1;
    }
    assert(zeros(k - len) =~= zeros(width - len));
    push_str(s, h.as_str());
    assert(s@ =~= start + hex_padded(n as nat, width as nat));
}

/// Encoding a concatenation is concatenating the encodings.
pub proof fn lemma_encode_utf8_concat(a: Seq<char>, b: Seq<char>)
    ensures
        encode_utf8(a + b) == encode_utf8(a) + encode_utf8(b),
    decreases a.len(),
{
    if a.len() == 0 {
        assert(a + b =~= b);
        assert(encode_utf8(a) =~= Seq::<u8>::empty());
        assert(encode_utf8(a) + encode_utf8(b) =~= encode_utf8(b));
    } else {
        lemma_encode_utf8_concat(a.drop_first(), b);
        assert((a + b).drop_first() =~= a.drop_first() + b);
        assert((a + b)[0] == a[0]);
        assert(encode_utf8(a + b) =~= encode_scalar(a[0] as u32) + encode_utf8(a.drop_first() + b));
        assert(encode_utf8(a) =~= encode_scalar(a[0] as u32) + encode_utf8(a.drop_first()));
    }
}

/// The number of bytes the UTF-8 encoding of `c` takes.
pub open spec fn char_byte_len(c: char) -> nat {
    encode_scalar(c as u32).len()
}

/// The UTF-8 length of a character sequence grows by the width of each character added.
pub proof fn lemma_byte_len_push(s: Seq<char>, c: char)
    ensures
        encode_utf8(s.push(c)).len() == encode_utf8(s).len() + char_byte_len(c),
{
    lemma_encode_utf8_concat(s, seq![c]);
    assert(s.push(c) =~= s + seq![c]);
    assert(seq![c].drop_first() =~= Seq::<char>::empty());
    assert(encode_utf8(seq![c]) =~= encode_scalar(c as u32) + encode_utf8(Seq::<char>::empty()));
}

/// The UTF-8 width of one character.
pub fn char_utf8_len(c: char) -> (n: usize)
    ensures
        n == char_byte_len(c),
        1 <= n <= 4,
{
    proof {
        broadcast use char_is_scalar;
    }
    let v = c as u32;
    if v <= 0x7F {
        1
    } else if v <= 0x7FF {
        2
    } else if v <= 0xFFFF {
        3
    } else {
        4
    }
}

/// Byte-wise equality of two byte sequences.
pub fn bytes_eq(a: &[u8], b: &[u8]) -> (r: bool)
    ensures
        r == (a@ == b@),
{
    if a.len() != b.len() {
        return false;
    }
    let mut i: usize = 0;
    while i < a.len()
        invariant
            a@.len() == b@.len(),
            i <= a@.len(),
            forall|j: int| 0 <= j < i ==> a@[j] == b@[j],
        decreases a@.len() - i,
    {
        if a[i] != b[i] {
            return false;
        }
        i = i + 1;
    }
    assert(a@ =~= b@);
    true
}

/// Equality of two strings.
pub fn str_eq(a: &str, b: &str) -> (r: bool)
    ensures
        r == (a@ == b@),
{
    let r = bytes_eq(a.as_bytes(), b.as_bytes());
    proof {
        broadcast use encode_utf8_decode_utf8;

        if r {
            assert(decode_utf8(encode_utf8(a@)) == decode_utf8(encode_utf8(b@)));
        }
    }
    r
}

/// ASCII lower-casing of one byte; every other byte is left alone.
pub open spec fn ascii_lower(b: u8) -> u8 {
    if 65 <= b <= 90 {
        (b + 32) as u8
    } else {
        b
    }
}

/// Equal after ASCII lower-casing, byte by byte.
pub open spec fn bytes_eq_ignore_case(a: Seq<u8>, b: Seq<u8>) -> bool {
    a.len() == b.len() && forall|i: int| 0 <= i < a.len() ==> ascii_lower(#[trigger] a[i]) == ascii_lower(b[i])
}

/// Equal ignoring ASCII case, comparing the UTF-8 encodings.
pub open spec fn str_eq_ignore_case(a: Seq<char>, b: Seq<char>) -> bool {
    bytes_eq_ignore_case(encode_utf8(a), encode_utf8(b))
}

/// ASCII lower-casing of one byte.
pub fn to_ascii_lower(b: u8) -> (r: u8)
    ensures
        r == ascii_lower(b),
{
    if 65 <= b && b <= 90 {
        b + 32
    } else {
        b
    }
}

/// ASCII lower-casing of one character; every other character is left alone.
pub open spec fn char_ascii_lower(c: char) -> char {
    if 'A' <= c && c <= 'Z' {
        ((c as u32) + 32) as char
    } else {
        c
    }
}

/// ASCII lower-casing of a text, character by character, as `str::to_ascii_lowercase` does.
pub open spec fn ascii_lowercase(s: Seq<char>) -> Seq<char> {
    s.map_values(|c: char| char_ascii_lower(c))
}

/// ASCII lower-casing of one character.
pub fn to_ascii_lower_char(c: char) -> (r: char)
    ensures
        r == char_ascii_lower(c),
{
    if 'A' <= c && c <= 'Z' {
        let b: u8 = c as u8;
        (b + 32) as char
    } else {
        c
    }
}

/// The text with its ASCII letters lower-cased and everything else kept.
pub fn ascii_lowercased(s: &str) -> (r: String)
    ensures
        r@ == ascii_lowercase(s@),
{
    let n = s.unicode_len();
    let mut r = String::new();
    let mut i: usize = 0;
    while i < n
        invariant
            n == s@.len(),
            i <= n,
            r@ == ascii_lowercase(s@.subrange(0, i as int)),
        decreases n - i,
    {
        let c = to_ascii_lower_char(s.get_char(i));
        push_char(&mut r, c);
        assert(ascii_lowercase(s@.subrange(0, i + 1)) =~= ascii_lowercase(s@.subrange(0, i as int)).push(c));
        i = i + 1;
    }
    assert(s@.subrange(0, n as int) =~= s@);
    r
}

/// Lower-casing a character lower-cases the bytes of its UTF-8 encoding.
proof fn lemma_encode_lower_char(c: char)
    ensures
        encode_scalar(char_ascii_lower(c) as u32) == encode_scalar(c as u32).map_values(|b: u8| ascii_lower(b)),
{
    let u = c as u32;
    if 'A' <= c && c <= 'Z' {
        let l = char_ascii_lower(c);
        assert(l as u32 == u + 32);
        let w = (u + 32) as u32;
        assert(((w & 0x7F) as u8) == ascii_lower((u & 0x7F) as u8)) by (bit_vector)
            requires
                65 <= u <= 90,
                w == u + 32,
        ;
        assert(encode_scalar(l as u32) =~= encode_scalar(u).map_values(|b: u8| ascii_lower(b)));
    } else {
        assert(char_ascii_lower(c) == c);
        if u <= 0x7F {
            assert(((u & 0x7F) as u8) == ascii_lower((u & 0x7F) as u8)) by (bit_vector)
                requires
                    u <= 0x7F,
                    !(65 <= u <= 90),
            ;
        } else {
            assert(forall|x: u8| x >= 0x80 ==> #[trigger] ascii_lower(x) == x);
            assert(0xC0u8 | (((u >> 6) & 0x1F) as u8) >= 0x80) by (bit_vector);
            assert(0xE0u8 | (((u >> 12) & 0x0F) as u8) >= 0x80) by (bit_vector);
            assert(0xF0u8 | (((u >> 18) & 0x7) as u8) >= 0x80) by (bit_vector);
            assert(0x80u8 | ((u & 0x3F) as u8) >= 0x80) by (bit_vector);
            assert(0x80u8 | (((u >> 6) & 0x3F) as u8) >= 0x80) by (bit_vector);
            assert(0x80u8 | (((u >> 12) & 0x3F) as u8) >= 0x80) by (bit_vector);
        }
        assert(encode_scalar(u) =~= encode_scalar(u).map_values(|b: u8| ascii_lower(b)));
    }
}

/// The UTF-8 encoding of a lower-cased text is the encoding of the text, byte by byte
/// lower-cased.
proof fn lemma_encode_lowercase(s: Seq<char>)
    ensures
        encode_utf8(ascii_lowercase(s)) == encode_utf8(s).map_values(|b: u8| ascii_lower(b)),
    decreases s.len(),
{
    if s.len() > 0 {
        lemma_encode_lowercase(s.drop_first());
        lemma_encode_lower_char(s[0]);
        assert(ascii_lowercase(s).drop_first() =~= ascii_lowercase(s.drop_first()));
        assert(ascii_lowercase(s)[0] == char_ascii_lower(s[0]));
        let f = |b: u8| ascii_lower(b);
        let x = encode_scalar(s[0] as u32);
        let y = encode_utf8(s.drop_first());
        assert((x + y).map_values(f) =~= x.map_values(f) + y.map_values(f));
    } else {
        assert(ascii_lowercase(s) =~= s);
        assert(encode_utf8(s).map_values(|b: u8| ascii_lower(b)) =~= encode_utf8(s));
    }
}

/// Texts equal ignoring ASCII case lower-case to the same text: what a case-insensitive hash
/// feeds the hasher is the same for both.
pub proof fn lemma_equal_ignoring_case_lowercase_alike(a: Seq<char>, b: Seq<char>)
    requires
        str_eq_ignore_case(a, b),
    ensures
        ascii_lowercase(a) == ascii_lowercase(b),
{
    broadcast use encode_utf8_decode_utf8;

    lemma_encode_lowercase(a);
    lemma_encode_lowercase(b);
    let f = |x: u8| ascii_lower(x);
    assert(encode_utf8(a).map_values(f) =~= encode_utf8(b).map_values(f));
    assert(decode_utf8(encode_utf8(ascii_lowercase(a))) == ascii_lowercase(a));
    assert(decode_utf8(encode_utf8(ascii_lowercase(b))) == ascii_lowercase(b));
}

/// Feeds a text to a hasher.
///
/// Trusted: `str`'s `Hash`, which writes the bytes of the text and a terminator into `state`;
/// nothing is stated of the hasher's state, which depends on the hasher.
#[verifier::external_body]
pub fn hash_str<H: core::hash::Hasher>(s: &str, state: &mut H) {
    core::hash::Hash::hash(s, state)
}

/// Whether two strings are equal ignoring ASCII case.
pub fn eq_ignore_ascii_case(a: &str, b: &str) -> (r: bool)
    ensures
        r == str_eq_ignore_case(a@, b@),
{
    let x = a.as_bytes();
    let y = b.as_bytes();
    if x.len() != y.len() {
        return false;
    }
    let mut i: usize = 0;
    while i < x.len()
        invariant
            x@ == encode_utf8(a@),
            y@ == encode_utf8(b@),
            x@.len() == y@.len(),
            i <= x@.len(),
            forall|j: int| 0 <= j < i ==> ascii_lower(#[trigger] x@[j]) == ascii_lower(y@[j]),
        decreases x@.len() - i,
    {
        if to_ascii_lower(x[i]) != to_ascii_lower(y[i]) {
            return false;
        }
        i = i + 1;
    }
    true
}

/// A new string holding `v[from..to]`.
pub fn string_from_chars(v: &Vec<char>, from: usize, to: usize) -> (s: String)
    requires
        from <= to <= v@.len(),
    ensures
        s@ == v@.subrange(from as int, to as int),
{
    let mut s = String::new();
    let mut i: usize = from;
    while i < to
        invariant
            from <= i <= to,
            to <= v@.len(),
            s@ == v@.subrange(from as int, i as int),
        decreases to - i,
    {
        push_char(&mut s, v[i]);
        assert(s@ =~= v@.subrange(from as int, i + 1));
        i = i + 1;
    }
    s
}

/// `value` with every occurrence of `c` removed.
pub open spec fn without_char(value: Seq<char>, c: char) -> Seq<char> {
    value.filter(|x: char| x != c)
}

/// The characters of `value` other than `c`, in order.
pub fn chars_without(value: &str, c: char) -> (v: Vec<char>)
    ensures
        v@ == without_char(value@, c),
{
    let n = value.unicode_len();
    let mut v: Vec<char> = Vec::new();
    let mut i: usize = 0;
    while i < n
        invariant
            n == value@.len(),
            i <= n,
            v@ == without_char(value@.subrange(0, i as int), c),
        decreases n - i,
    {
        let x = value.get_char(i);
        proof {
            let pre = value@.subrange(0, i as int);
            assert(value@.subrange(0, i + 1) =~= pre.push(x));
            reveal_with_fuel(Seq::filter, 1);
            assert(pre.push(x).drop_last() =~= pre);
        }
        if x != c {
            v.push(x);
        }
        i = i + 1;
    }
    assert(value@.subrange(0, n as int) =~= value@);
    v
}

/// ASCII letters and digits.
pub open spec fn is_ascii_alphanumeric(c: char) -> bool {
    ('0' <= c <= '9') || ('A' <= c <= 'Z') || ('a' <= c <= 'z')
}

/// ASCII letters.
pub open spec fn is_ascii_alphabetic(c: char) -> bool {
    ('A' <= c <= 'Z') || ('a' <= c <= 'z')
}

/// ASCII digits.
pub open spec fn is_ascii_digit(c: char) -> bool {
    '0' <= c <= '9'
}

/// `n` in decimal, left-padded with zeros to at least `width` digits.
pub open spec fn dec_padded(n: nat, width: nat) -> Seq<char> {
    zeros(width - dec_digits(n).len()) + dec_digits(n)
}

/// Appends `n` in decimal, padded with zeros to at least `width` digits.
pub fn push_decimal_padded(s: &mut String, n: u64, width: usize)
    ensures
        final(s)@ == old(s)@ + dec_padded(n as nat, width as nat),
{
    let h = decimal_string(n);
    let len = h.as_str().unicode_len();
    let ghost start = s@;
    let mut k: usize = len;
    while k < width
        invariant
            len == dec_digits(n as nat).len(),
            len <= k,
            k == len || k <= width,
            s@ == start + zeros(k - len),
        decreases width - k,
    {
        push_char(s, '0');
        assert(s@ =~= start + zeros(k + 1 - len));
        k = k + 1;
    }
    assert(zeros(k - len) =~= zeros(width - len));
    push_str(s, h.as_str());
    assert(s@ =~= start + dec_padded(n as nat, width as nat));
}

/// A signed integer formatted as Rust's `{:0width$}` does: the sign counts towards the width
/// and the zeros go between the sign and the digits.
pub open spec fn signed_padded(n: int, width: nat) -> Seq<char> {
    if n < 0 {
        seq!['-'] + dec_padded((-n) as nat, (width - 1) as nat)
    } else {
        dec_padded(n as nat, width)
    }
}

/// Appends `n` formatted as `{:0width$}`.
pub fn push_signed_padded(s: &mut String, n: i64, width: usize)
    requires
        width >= 1,
    ensures
        final(s)@ == old(s)@ + signed_padded(n as int, width as nat),
{
    if n < 0 {
        push_char(s, '-');
        let magnitude: u64 = if n == i64::MIN {
            9223372036854775808u64
        } else {
            (-n) as u64
        };
        push_decimal_padded(s, magnitude, width - 1);
        assert(final(s)@ =~= old(s)@ + signed_padded(n as int, width as nat));
    } else {
        push_decimal_padded(s, n as u64, width);
    }
}

/// What Rust's `{:?}` writes for a string: the text quoted and escaped.
pub uninterp spec fn debug_text(s: Seq<char>) -> Seq<char>;

/// Appends `value` formatted with `{:?}`.
///
/// Trusted: the `Debug` implementation of `str`, which writes the text in double quotes with
/// quotes, backslashes and non-printable characters escaped. The escaping rules are not restated
/// here; the result is named by [`debug_text`], a function of the text alone.
#[verifier::external_body]
pub(crate) fn push_debug_str(s: &mut String, value: &str)
    ensures
        final(s)@ == old(s)@ + debug_text(value@),
{
    let _ = write!(s, "{value:?}");
}

/// `s` without any trailing `c`.
pub open spec fn trim_end(s: Seq<char>, c: char) -> Seq<char>
    decreases s.len(),
{
    if s.len() > 0 && s.last() == c {
        trim_end(s.drop_last(), c)
    } else {
        s
    }
}

/// `s` without any leading `c`.
pub open spec fn trim_start(s: Seq<char>, c: char) -> Seq<char>
    decreases s.len(),
{
    if s.len() > 0 && s[0] == c {
        trim_start(s.drop_first(), c)
    } else {
        s
    }
}

/// `s` without any trailing `c`.
pub fn trim_end_char(s: &str, c: char) -> (r: &str)
    ensures
        r@ == trim_end(s@, c),
{
    let n = s.unicode_len();
    let mut k: usize = n;
    assert(s@.subrange(0, n as int) =~= s@);
    while k > 0 && s.get_char(k - 1) == c
        invariant
            n == s@.len(),
            k <= n,
            trim_end(s@, c) == trim_end(s@.subrange(0, k as int), c),
        decreases k,
    {
        assert(s@.subrange(0, k as int).drop_last() =~= s@.subrange(0, k - 1));
        k = k - 1;
    }
    proof {
        if k > 0 {
            assert(s@.subrange(0, k as int).last() == s@[k - 1]);
        } else {
            assert(s@.subrange(0, 0) =~= Seq::<char>::empty());
        }
    }
    s.substring_char(0, k)
}

/// `s` without any leading `c`.
pub fn trim_start_char(s: &str, c: char) -> (r: &str)
    ensures
        r@ == trim_start(s@, c),
{
    let n = s.unicode_len();
    let mut k: usize = 0;
    assert(s@.subrange(0, n as int) =~= s@);
    while k < n && s.get_char(k) == c
        invariant
            n == s@.len(),
            k <= n,
            trim_start(s@, c) == trim_start(s@.subrange(k as int, n as int), c),
        decreases n - k,
    {
        assert(s@.subrange(k as int, n as int).drop_first() =~= s@.subrange(k + 1, n as int));
        k = k + 1;
    }
    s.substring_char(k, n)
}

/// Whether `c` occurs in `s`.
pub fn contains_char(s: &str, c: char) -> (r: bool)
    ensures
        r == s@.contains(c),
{
    let n = s.unicode_len();
    let mut k: usize = 0;
    while k < n
        invariant
            n == s@.len(),
            k <= n,
            forall|j: int| 0 <= j < k ==> s@[j] != c,
        decreases n - k,
    {
        if s.get_char(k) == c {
            return true;
        }
        k = k + 1;
    }
    false
}

/// Whether `s` ends with `suffix`.
pub open spec fn ends_with(s: Seq<char>, suffix: Seq<char>) -> bool {
    suffix.len() <= s.len() && s.subrange(s.len() - suffix.len(), s.len() as int) == suffix
}

/// Whether `s` ends with `suffix`.
pub fn str_ends_with(s: &str, suffix: &str) -> (r: bool)
    ensures
        r == ends_with(s@, suffix@),
{
    let n = s.unicode_len();
    let m = suffix.unicode_len();
    if m > n {
        return false;
    }
    let mut k: usize = 0;
    while k < m
        invariant
            n == s@.len(),
            m == suffix@.len(),
            m <= n,
            k <= m,
            forall|j: int| 0 <= j < k ==> s@[n - m + j] == suffix@[j],
        decreases m - k,
    {
        if s.get_char(n - m + k) != suffix.get_char(k) {
            assert(s@.subrange(n - m, n as int)[k as int] == s@[n - m + k]);
            return false;
        }
        k = k + 1;
    }
    assert(s@.subrange(n - m, n as int) =~= suffix@);
    true
}


/// A character `char::is_whitespace` accepts: Unicode `White_Space`.
pub open spec fn is_unicode_whitespace(c: char) -> bool {
    ||| '\u{9}' <= c <= '\u{d}'
    ||| c == ' '
    ||| c == '\u{85}'
    ||| c == '\u{a0}'
    ||| c == '\u{1680}'
    ||| '\u{2000}' <= c <= '\u{200a}'
    ||| c == '\u{2028}'
    ||| c == '\u{2029}'
    ||| c == '\u{202f}'
    ||| c == '\u{205f}'
    ||| c == '\u{3000}'
}

/// Whether `c` is Unicode whitespace.
pub fn unicode_whitespace(c: char) -> (r: bool)
    ensures
        r == is_unicode_whitespace(c),
{
    ('\u{9}' <= c && c <= '\u{d}') || c == ' ' || c == '\u{85}' || c == '\u{a0}' || c == '\u{1680}'
        || ('\u{2000}' <= c && c <= '\u{200a}') || c == '\u{2028}' || c == '\u{2029}' || c
        == '\u{202f}' || c == '\u{205f}' || c == '\u{3000}'
}

/// `s` without its leading whitespace, as `str::trim_start` gives it.
pub open spec fn trim_leading_whitespace(s: Seq<char>) -> Seq<char>
    decreases s.len(),
{
    if s.len() > 0 && is_unicode_whitespace(s[0]) {
        trim_leading_whitespace(s.drop_first())
    } else {
        s
    }
}

/// `s` without its trailing whitespace, as `str::trim_end` gives it.
pub open spec fn trim_trailing_whitespace(s: Seq<char>) -> Seq<char>
    decreases s.len(),
{
    if s.len() > 0 && is_unicode_whitespace(s.last()) {
        trim_trailing_whitespace(s.drop_last())
    } else {
        s
    }
}

/// `s` without whitespace at either end, as `str::trim` gives it.
pub open spec fn trim_whitespace(s: Seq<char>) -> Seq<char> {
    trim_trailing_whitespace(trim_leading_whitespace(s))
}

/// The characters of `v` without whitespace at either end.
pub fn trim_chars(v: &Vec<char>) -> (r: Vec<char>)
    ensures
        r@ == trim_whitespace(v@),
{
    let n = v.len();
    let mut a: usize = 0;
    assert(v@.subrange(0, n as int) =~= v@);
    while a < n && unicode_whitespace(v[a])
        invariant
            a <= n,
            n == v@.len(),
            trim_leading_whitespace(v@) == trim_leading_whitespace(v@.subrange(a as int, n as int)),
        decreases n - a,
    {
        proof {
            assert(v@.subrange(a as int, n as int).drop_first() =~= v@.subrange(a + 1, n as int));
        }
        a = a + 1;
    }
    proof {
        let t = v@.subrange(a as int, n as int);
        if t.len() > 0 {
            assert(t[0] == v@[a as int]);
        }
        assert(trim_leading_whitespace(v@) == t);
    }
    let mut b: usize = n;
    while b > a && unicode_whitespace(v[b - 1])
        invariant
            a <= b <= n,
            n == v@.len(),
            trim_whitespace(v@) == trim_trailing_whitespace(v@.subrange(a as int, b as int)),
        decreases b,
    {
        proof {
            assert(v@.subrange(a as int, b as int).drop_last() =~= v@.subrange(a as int, b - 1));
        }
        b = b - 1;
    }
    proof {
        let t = v@.subrange(a as int, b as int);
        if t.len() > 0 {
            assert(t.last() == v@[b - 1]);
        }
    }
    let mut r: Vec<char> = Vec::new();
    let mut i = a;
    while i < b
        invariant
            a <= i <= b <= n,
            n == v@.len(),
            r@ == v@.subrange(a as int, i as int),
        decreases b - i,
    {
        r.push(v[i]);
        assert(r@ =~= v@.subrange(a as int, i + 1));
        i = i + 1;
    }
    r
}

/// `s` split at every `c`, as `str::split` gives it: always at least one part.
pub open spec fn split_on(s: Seq<char>, c: char) -> Seq<Seq<char>>
    decreases s.len(),
{
    if s.len() == 0 {
        seq![Seq::empty()]
    } else {
        let parts = split_on(s.drop_last(), c);
        if s.last() == c {
            parts.push(Seq::empty())
        } else {
            parts.update(parts.len() - 1, parts.last().push(s.last()))
        }
    }
}

/// `split_on` has at least one part.
pub proof fn lemma_split_on_nonempty(s: Seq<char>, c: char)
    ensures
        split_on(s, c).len() >= 1,
    decreases s.len(),
{
    if s.len() > 0 {
        lemma_split_on_nonempty(s.drop_last(), c);
    }
}

/// The views of a list of character vectors.
pub open spec fn views(v: Seq<Vec<char>>) -> Seq<Seq<char>> {
    v.map_values(|p: Vec<char>| p@)
}

/// The characters of `v` split at every `c`.
pub fn split_chars(v: &Vec<char>, c: char) -> (r: Vec<Vec<char>>)
    ensures
        views(r@) == split_on(v@, c),
        r@.len() >= 1,
{
    let mut parts: Vec<Vec<char>> = Vec::new();
    parts.push(Vec::new());
    let mut i: usize = 0;
    proof {
        assert(v@.take(0) =~= Seq::<char>::empty());
        assert(views(parts@) =~= seq![Seq::<char>::empty()]);
    }
    while i < v.len()
        invariant
            i <= v@.len(),
            parts@.len() >= 1,
            views(parts@) == split_on(v@.take(i as int), c),
        decreases v@.len() - i,
    {
        let ch = v[i];
        proof {
            assert(v@.take(i + 1).drop_last() =~= v@.take(i as int));
            lemma_split_on_nonempty(v@.take(i as int), c);
        }
        if ch == c {
            parts.push(Vec::new());
            proof {
                assert(views(parts@) =~= split_on(v@.take(i + 1), c));
            }
        } else {
            let k = parts.len() - 1;
            let mut last = parts.pop().unwrap();
            last.push(ch);
            parts.push(last);
            proof {
                assert(views(parts@) =~= split_on(v@.take(i + 1), c));
            }
        }
        i = i + 1;
    }
    proof {
        assert(v@.take(v@.len() as int) =~= v@);
    }
    parts
}

/// `n` spaces.
pub open spec fn spaces(n: nat) -> Seq<char> {
    Seq::new(n, |i: int| ' ')
}

/// `t` right-aligned in a field `width` characters wide: spaces in front when it is shorter.
pub open spec fn padded_left(t: Seq<char>, width: nat) -> Seq<char> {
    if t.len() < width {
        spaces((width - t.len()) as nat) + t
    } else {
        t
    }
}

/// `t` left-aligned in a field `width` characters wide: spaces after it when it is shorter.
pub open spec fn padded_right(t: Seq<char>, width: nat) -> Seq<char> {
    if t.len() < width {
        t + spaces((width - t.len()) as nat)
    } else {
        t
    }
}

/// Appends `n` spaces.
pub fn push_spaces(s: &mut String, n: usize)
    ensures
        final(s)@ == old(s)@ + spaces(n as nat),
{
    let ghost start = s@;
    let mut i: usize = 0;
    while i < n
        invariant
            i <= n,
            s@ == start + spaces(i as nat),
        decreases n - i,
    {
        push_char(s, ' ');
        i = i + 1;
        proof {
            assert(start + spaces(i as nat) =~= (start + spaces((i - 1) as nat)).push(' '));
        }
    }
}

/// Appends `t` right-aligned in a field `width` characters wide, as `{:>width}` writes it.
pub fn push_padded_left(s: &mut String, t: &str, width: usize)
    ensures
        final(s)@ == old(s)@ + padded_left(t@, width as nat),
{
    let n = t.unicode_len();
    let ghost start = s@;
    if n < width {
        push_spaces(s, width - n);
    }
    push_str(s, t);
    proof {
        if n < width {
            assert(s@ =~= start + (spaces((width - n) as nat) + t@));
        } else {
            assert(s@ =~= start + t@);
        }
    }
}

/// Appends `t` left-aligned in a field `width` characters wide, as `{:<width}` writes it.
pub fn push_padded_right(s: &mut String, t: &str, width: usize)
    ensures
        final(s)@ == old(s)@ + padded_right(t@, width as nat),
{
    let n = t.unicode_len();
    let ghost start = s@;
    push_str(s, t);
    if n < width {
        push_spaces(s, width - n);
    }
    proof {
        if n < width {
            assert(s@ =~= start + (t@ + spaces((width - n) as nat)));
        } else {
            assert(s@ =~= start + t@);
        }
    }
}

} // verus!
