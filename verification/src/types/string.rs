//! `OcpiString` — the OCPI case-sensitive, printable-UTF-8 string type.

use vstd::prelude::*;
use vstd::utf8::encode_utf8;

use crate::strings::{dec_digits, push_decimal, push_str, str_eq};

use super::validate::{Validate, Validator, ViolationCode, ViolationView};

use super::text::{
    InvalidString, StringKind, byte_offset, check_printable_utf8, first_control, no_control, utf8_char_error,
};

verus! {

/// The `#NA` sentinel the spec allows where a required string cannot be filled.
pub const NOT_AVAILABLE: &'static str = "#NA";

/// A case-sensitive OCPI string of at most `N` characters.
///
/// `N` counts Unicode scalar values, not bytes; [`OcpiString::len_bytes`] and
/// [`OcpiString::is_conformant_in_bytes`] answer the stricter byte reading.
#[derive(Clone, Default, PartialEq, Eq, PartialOrd, Ord, Hash, Debug)]
pub struct OcpiString<const N: usize>(String);

impl<const N: usize> View for OcpiString<N> {
    type V = Seq<char>;

    closed spec fn view(&self) -> Seq<char> {
        self.0@
    }
}

/// What [`OcpiString::new`] accepts: no control character and at most `max` characters.
pub open spec fn ocpi_string_conformant(s: Seq<char>, max: nat) -> bool {
    no_control(s) && s.len() <= max
}

/// The error [`OcpiString::new`] reports for a value it refuses.
pub open spec fn ocpi_string_error(s: Seq<char>, max: nat) -> InvalidString {
    if !no_control(s) {
        utf8_char_error(s, StringKind::Utf8)
    } else {
        InvalidString::spec_too_long(s.len() as usize, max as usize, StringKind::Utf8)
    }
}

/// A text takes at least one byte per character.
pub proof fn lemma_bytes_at_least_chars(s: Seq<char>)
    ensures
        encode_utf8(s).len() >= s.len(),
    decreases s.len(),
{
    if s.len() > 0 {
        lemma_bytes_at_least_chars(s.drop_first());
    }
}

/// A value that fits `max` bytes, and holds no control character, fits `max` characters: what
/// [`OcpiString::is_conformant_in_bytes`] accepts, [`OcpiString::is_conformant`] accepts too.
pub proof fn lemma_conformant_in_bytes_is_conformant(s: Seq<char>, max: nat)
    requires
        encode_utf8(s).len() <= max,
        no_control(s),
    ensures
        ocpi_string_conformant(s, max),
{
    lemma_bytes_at_least_chars(s);
}

impl<const N: usize> OcpiString<N> {
    /// Creates an `OcpiString`, enforcing the character set and the length limit.
    ///
    /// The character set is checked first, so a value that breaks both rules is reported for its
    /// first control character.
    pub fn new(value: &str) -> (res: Result<Self, InvalidString>)
        ensures
            res is Ok <==> ocpi_string_conformant(value@, N as nat),
            res matches Ok(s) ==> s@ == value@,
            res matches Err(e) ==> e == ocpi_string_error(value@, N as nat),
    {
        check_printable_utf8(value, StringKind::Utf8)?;
        let len = value.unicode_len();
        if len > N {
            return Err(InvalidString::too_long(len, N, StringKind::Utf8));
        }
        Ok(OcpiString(value.to_owned()))
    }

    /// Creates an `OcpiString` without enforcing anything, as decoding from the wire does.
    pub fn new_lenient(value: &str) -> (s: Self)
        ensures
            s@ == value@,
    {
        OcpiString(value.to_owned())
    }

    /// Wraps an owned string without enforcing anything.
    pub fn from_string_lenient(value: String) -> (s: Self)
        ensures
            s@ == value@,
    {
        OcpiString(value)
    }

    /// The string.
    pub fn as_str(&self) -> (r: &str)
        ensures
            r@ == self@,
    {
        self.0.as_str()
    }

    /// Consumes this string and yields the inner [`String`].
    pub fn into_string(self) -> (r: String)
        ensures
            r@ == self@,
    {
        self.0
    }

    /// The length in Unicode scalar values, which is what `N` bounds.
    pub fn len(&self) -> (r: usize)
        ensures
            r == self@.len(),
    {
        self.0.as_str().unicode_len()
    }

    /// The length in UTF-8 bytes.
    pub fn len_bytes(&self) -> (r: usize)
        ensures
            r == encode_utf8(self@).len() as usize,
    {
        self.0.as_str().len()
    }

    /// Whether the string is empty.
    pub fn is_empty(&self) -> (r: bool)
        ensures
            r == (self@.len() == 0),
    {
        self.0.as_str().is_empty()
    }

    /// Whether this value satisfies the spec constraints that [`OcpiString::new`] enforces.
    pub fn is_conformant(&self) -> (r: bool)
        ensures
            r == ocpi_string_conformant(self@, N as nat),
    {
        self.len() <= N && check_printable_utf8(self.0.as_str(), StringKind::Utf8).is_ok()
    }

    /// Whether this value also fits `N` *bytes*, the stricter reading of `string(N)`.
    pub fn is_conformant_in_bytes(&self) -> (r: bool)
        ensures
            r == (encode_utf8(self@).len() as usize <= N && no_control(self@)),
    {
        self.0.as_str().len() <= N && check_printable_utf8(self.0.as_str(), StringKind::Utf8).is_ok()
    }

    /// Re-types this string to a different maximum length, enforcing the new limit.
    pub fn resize<const M: usize>(self) -> (res: Result<OcpiString<M>, InvalidString>)
        ensures
            res is Ok <==> ocpi_string_conformant(self@, M as nat),
            res matches Ok(s) ==> s@ == self@,
            res matches Err(e) ==> e == ocpi_string_error(self@, M as nat),
            res matches Err(e) ==> e.spec_kind() == StringKind::Utf8 && (e.spec_is_too_long() <==> no_control(
                self@,
            )),
    {
        let res = OcpiString::<M>::new(self.0.as_str());
        proof {
            if let Err(e) = res {
                let i = first_control(self@);
                InvalidString::lemma_error_shape(
                    self@.len() as usize,
                    M,
                    byte_offset(self@, i) as usize,
                    self@[i],
                    StringKind::Utf8,
                );
            }
        }
        res
    }

    /// Whether this value is the `#NA` sentinel.
    pub fn is_not_available(&self) -> (r: bool)
        ensures
            r == (self@ == NOT_AVAILABLE@),
    {
        str_eq(self.0.as_str(), NOT_AVAILABLE)
    }
}

/// The violations an `OcpiString(max)` holding `s` reports: a control character, then length.
pub open spec fn ocpi_string_violations(s: Seq<char>, max: nat) -> Seq<ViolationView> {
    let chars = if no_control(s) {
        Seq::<ViolationView>::empty()
    } else {
        seq![
            (
                Seq::<char>::empty(),
                ViolationCode::IllegalCharacter,
                utf8_char_error(s, StringKind::Utf8).spec_message(),
            ),
        ]
    };
    let length = if s.len() <= max {
        Seq::<ViolationView>::empty()
    } else {
        seq![
            (
                Seq::<char>::empty(),
                ViolationCode::TooLong,
                "string("@ + dec_digits(max) + ") holds "@ + dec_digits(s.len()) + " characters"@,
            ),
        ]
    };
    chars + length
}

impl<const N: usize> Validate for OcpiString<N> {
    open spec fn violations(&self) -> Seq<ViolationView> {
        ocpi_string_violations(self@, N as nat)
    }

    fn validate_in(&self, v: &mut Validator)
        ensures
            final(v)@ == old(v)@ + ocpi_string_violations(self@, N as nat),
    {
        let ghost start = v@;
        if let Err(e) = check_printable_utf8(self.0.as_str(), StringKind::Utf8) {
            v.report(ViolationCode::IllegalCharacter, e.to_string());
        }
        let len = self.len();
        if len > N {
            let mut m = String::new();
            push_str(&mut m, "string(");
            push_decimal(&mut m, N as u64);
            push_str(&mut m, ") holds ");
            push_decimal(&mut m, len as u64);
            push_str(&mut m, " characters");
            v.report(ViolationCode::TooLong, m);
        }
        assert(v@ =~= start + ocpi_string_violations(self@, N as nat));
    }
}

/// Construction and validation agree: `OcpiString::new` accepts exactly the values that, held as
/// decoding holds them, validate with no violation.
pub proof fn lemma_ocpi_string_construction_agrees_with_validation(s: Seq<char>, max: nat)
    ensures
        ocpi_string_conformant(s, max) <==> ocpi_string_violations(s, max).len() == 0,
{
}


} // verus!
