//! Shared character-set rules for the two OCPI string types.

use vstd::prelude::*;
use vstd::utf8::*;

use crate::strings::{
    char_byte_len, char_utf8_len, dec_digits, hex_padded, lemma_byte_len_push, push_decimal,
    push_hex_padded, push_str,
};

verus! {

/// Which of the two OCPI string types a rule applies to.
#[derive(Clone, Copy, Debug, PartialEq, Eq, Structural, Hash)]
pub enum StringKind {
    /// `CiString`: case-insensitive, printable ASCII only.
    Ci,
    /// `string`: case-sensitive, printable UTF-8.
    Utf8,
}

impl StringKind {
    /// The name the specification gives the string type.
    pub open spec fn spec_name(self) -> Seq<char> {
        match self {
            StringKind::Ci => "CiString"@,
            StringKind::Utf8 => "string"@,
        }
    }

    fn name(self) -> (r: &'static str)
        ensures
            r@ == self.spec_name(),
    {
        match self {
            StringKind::Ci => "CiString",
            StringKind::Utf8 => "string",
        }
    }
}

/// Why a rule was broken.
#[derive(Clone, Copy, Debug, PartialEq, Eq, Structural)]
pub(crate) enum Reason {
    TooLong { len: usize, max: usize },
    NonPrintable { at: usize, ch: char },
    NonAscii { at: usize, ch: char },
}

/// Why a string could not be accepted by a strict constructor.
#[derive(Clone, Copy, Debug, PartialEq, Eq, Structural)]
pub struct InvalidString {
    kind: StringKind,
    reason: Reason,
}

/// A `CiString` character: U+0020..=U+007E.
pub open spec fn is_printable_ascii(c: char) -> bool {
    ' ' <= c <= '~'
}

/// A Unicode control character (general category `Cc`): C0, DEL and C1.
pub open spec fn is_control(c: char) -> bool {
    c <= '\u{1f}' || ('\u{7f}' <= c && c <= '\u{9f}')
}

/// Every character is printable ASCII.
pub open spec fn all_printable_ascii(s: Seq<char>) -> bool {
    forall|i: int| 0 <= i < s.len() ==> is_printable_ascii(#[trigger] s[i])
}

/// No character is a control character.
pub open spec fn no_control(s: Seq<char>) -> bool {
    forall|i: int| 0 <= i < s.len() ==> !is_control(#[trigger] s[i])
}

/// The byte offset of the character at index `i`.
pub open spec fn byte_offset(s: Seq<char>, i: int) -> nat {
    encode_utf8(s.subrange(0, i)).len()
}

impl InvalidString {
    /// The string type whose rules were broken.
    pub closed spec fn spec_kind(self) -> StringKind {
        self.kind
    }

    /// Whether the rejection was about length alone.
    pub closed spec fn spec_is_too_long(self) -> bool {
        self.reason is TooLong
    }

    /// The error for a value of `len` units where `max` are allowed.
    pub closed spec fn spec_too_long(len: usize, max: usize, kind: StringKind) -> InvalidString {
        InvalidString { kind, reason: Reason::TooLong { len, max } }
    }

    /// The error for a control or otherwise unprintable character `ch` at byte offset `at`.
    pub closed spec fn spec_non_printable(at: usize, ch: char, kind: StringKind) -> InvalidString {
        InvalidString { kind, reason: Reason::NonPrintable { at, ch } }
    }

    /// The error for a non-ASCII character `ch` at byte offset `at`.
    pub closed spec fn spec_non_ascii(at: usize, ch: char, kind: StringKind) -> InvalidString {
        InvalidString { kind, reason: Reason::NonAscii { at, ch } }
    }

    /// The human-readable explanation.
    pub closed spec fn spec_message(self) -> Seq<char> {
        let name = self.kind.spec_name();
        match self.reason {
            Reason::TooLong { len, max } => name + "("@ + dec_digits(max as nat) + ") cannot hold "@
                + dec_digits(len as nat) + " characters"@,
            Reason::NonPrintable { at, ch } => name
                + " must contain only printable characters, found U+"@ + hex_padded(
                ch as nat,
                4,
            ) + " at index "@ + dec_digits(at as nat),
            Reason::NonAscii { at, ch } => name + " must contain only ASCII, found U+"@
                + hex_padded(ch as nat, 4) + " at index "@ + dec_digits(at as nat),
        }
    }

    /// A length error is about length alone, and a character error is not; each is of the kind
    /// it was made for.
    pub proof fn lemma_error_shape(len: usize, max: usize, at: usize, ch: char, kind: StringKind)
        ensures
            Self::spec_too_long(len, max, kind).spec_is_too_long(),
            Self::spec_too_long(len, max, kind).spec_kind() == kind,
            !Self::spec_non_printable(at, ch, kind).spec_is_too_long(),
            Self::spec_non_printable(at, ch, kind).spec_kind() == kind,
            !Self::spec_non_ascii(at, ch, kind).spec_is_too_long(),
            Self::spec_non_ascii(at, ch, kind).spec_kind() == kind,
    {
    }

    pub(crate) fn too_long(len: usize, max: usize, kind: StringKind) -> (r: Self)
        ensures
            r == Self::spec_too_long(len, max, kind),
    {
        InvalidString { kind, reason: Reason::TooLong { len, max } }
    }

    /// Whether the string was rejected only because it was too long.
    pub fn is_too_long(&self) -> (r: bool)
        ensures
            r == self.spec_is_too_long(),
    {
        match self.reason {
            Reason::TooLong { .. } => true,
            _ => false,
        }
    }

    /// The string type whose rules were broken.
    pub fn kind(&self) -> (r: StringKind)
        ensures
            r == self.spec_kind(),
    {
        self.kind
    }

    /// The explanation a person reads, naming the rule and where it was broken.
    pub fn to_string(&self) -> (s: String)
        ensures
            s@ == self.spec_message(),
    {
        let mut s = String::new();
        push_str(&mut s, self.kind.name());
        match self.reason {
            Reason::TooLong { len, max } => {
                push_str(&mut s, "(");
                push_decimal(&mut s, max as u64);
                push_str(&mut s, ") cannot hold ");
                push_decimal(&mut s, len as u64);
                push_str(&mut s, " characters");
            },
            Reason::NonPrintable { at, ch } => {
                push_str(&mut s, " must contain only printable characters, found U+");
                push_hex_padded(&mut s, ch as u32 as u64, 4);
                push_str(&mut s, " at index ");
                push_decimal(&mut s, at as u64);
            },
            Reason::NonAscii { at, ch } => {
                push_str(&mut s, " must contain only ASCII, found U+");
                push_hex_padded(&mut s, ch as u32 as u64, 4);
                push_str(&mut s, " at index ");
                push_decimal(&mut s, at as u64);
            },
        }
        assert(s@ =~= self.spec_message());
        s
    }
}

/// The index of the first character that is not printable ASCII.
pub open spec fn first_bad_ascii(s: Seq<char>) -> int {
    choose|i: int|
        0 <= i < s.len() && all_printable_ascii(s.subrange(0, i)) && !is_printable_ascii(
            #[trigger] s[i],
        )
}

/// The error [`check_printable_ascii`] reports for a value that is not all printable ASCII.
pub open spec fn ascii_char_error(s: Seq<char>, kind: StringKind) -> InvalidString {
    let i = first_bad_ascii(s);
    if s[i] <= '\u{7f}' {
        InvalidString::spec_non_printable(i as usize, s[i], kind)
    } else {
        InvalidString::spec_non_ascii(i as usize, s[i], kind)
    }
}

/// The index of the first control character.
pub open spec fn first_control(s: Seq<char>) -> int {
    choose|i: int| 0 <= i < s.len() && no_control(s.subrange(0, i)) && is_control(#[trigger] s[i])
}

/// The error [`check_printable_utf8`] reports for a value that carries a control character.
pub open spec fn utf8_char_error(s: Seq<char>, kind: StringKind) -> InvalidString {
    let i = first_control(s);
    InvalidString::spec_non_printable(byte_offset(s, i) as usize, s[i], kind)
}

proof fn lemma_first_bad_ascii_unique(s: Seq<char>, i: int)
    requires
        0 <= i < s.len(),
        all_printable_ascii(s.subrange(0, i)),
        !is_printable_ascii(s[i]),
    ensures
        first_bad_ascii(s) == i,
{
    let j = first_bad_ascii(s);
    if j < i {
        assert(s.subrange(0, i)[j] == s[j]);
    } else if j > i {
        assert(s.subrange(0, j)[i] == s[i]);
    }
}

proof fn lemma_first_control_unique(s: Seq<char>, i: int)
    requires
        0 <= i < s.len(),
        no_control(s.subrange(0, i)),
        is_control(s[i]),
    ensures
        first_control(s) == i,
{
    let j = first_control(s);
    if j < i {
        assert(s.subrange(0, i)[j] == s[j]);
    } else if j > i {
        assert(s.subrange(0, j)[i] == s[i]);
    }
}

/// Enforces the `CiString` character set: U+0020..=U+007E.
///
/// The error names the first offending character and its index.
pub fn check_printable_ascii(value: &str, kind: StringKind) -> (res: Result<(), InvalidString>)
    ensures
        res is Ok <==> all_printable_ascii(value@),
        res matches Err(e) ==> e == ascii_char_error(value@, kind),
{
    let n = value.unicode_len();
    let mut i: usize = 0;
    while i < n
        invariant
            n == value@.len(),
            i <= n,
            all_printable_ascii(value@.subrange(0, i as int)),
        decreases n - i,
    {
        let ch = value.get_char(i);
        if !(' ' <= ch && ch <= '~') {
            proof {
                lemma_first_bad_ascii_unique(value@, i as int);
            }
            if ch <= '\u{7f}' {
                return Err(InvalidString { kind, reason: Reason::NonPrintable { at: i, ch } });
            } else {
                return Err(InvalidString { kind, reason: Reason::NonAscii { at: i, ch } });
            }
        }
        assert(value@.subrange(0, i + 1) =~= value@.subrange(0, i as int).push(ch));
        i = i + 1;
    }
    assert(value@.subrange(0, n as int) =~= value@);
    Ok(())
}

/// Enforces the `string` character set: printable UTF-8, no control characters.
///
/// The error names the first control character and its byte offset.
pub fn check_printable_utf8(value: &str, kind: StringKind) -> (res: Result<(), InvalidString>)
    ensures
        res is Ok <==> no_control(value@),
        res matches Err(e) ==> e == utf8_char_error(value@, kind),
{
    let n = value.unicode_len();
    let mut i: usize = 0;
    let mut at: u128 = 0;
    while i < n
        invariant
            n == value@.len(),
            i <= n,
            no_control(value@.subrange(0, i as int)),
            at == byte_offset(value@, i as int),
            at <= 4 * i,
            i <= usize::MAX,
        decreases n - i,
    {
        let ch = value.get_char(i);
        if ch <= '\u{1f}' || ('\u{7f}' <= ch && ch <= '\u{9f}') {
            proof {
                lemma_first_control_unique(value@, i as int);
            }
            return Err(InvalidString { kind, reason: Reason::NonPrintable { at: at as usize, ch } });
        }
        assert(value@.subrange(0, i + 1) =~= value@.subrange(0, i as int).push(ch));
        proof {
            lemma_byte_len_push(value@.subrange(0, i as int), ch);
        }
        let w = char_utf8_len(ch);
        at = at + w as u128;
        i = i + 1;
    }
    assert(value@.subrange(0, n as int) =~= value@);
    Ok(())
}

} // verus!
