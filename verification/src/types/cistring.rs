//! `CiString` — the OCPI case-insensitive, printable-ASCII string type.

use vstd::prelude::*;
use vstd::utf8::encode_utf8;

use crate::strings::{ascii_lowercased, dec_digits, eq_ignore_ascii_case, hash_str, push_decimal, push_str, str_eq_ignore_case};

use super::validate::{Validate, Validator, ViolationCode, ViolationView};

use super::text::{
    InvalidString, StringKind, all_printable_ascii, ascii_char_error, check_printable_ascii, first_bad_ascii,
};

verus! {

/// A case-insensitive OCPI string of at most `N` printable ASCII characters.
///
/// Equality ignores ASCII case, as the specification's `CiString` requires; the text itself is
/// kept exactly as written.
#[derive(Default, Debug)]
pub struct CiString<const N: usize>(String);

impl<const N: usize> Clone for CiString<N> {
    fn clone(&self) -> (r: Self)
        ensures
            r == *self,
    {
        CiString(self.0.clone())
    }
}

impl<const N: usize> View for CiString<N> {
    type V = Seq<char>;

    closed spec fn view(&self) -> Seq<char> {
        self.0@
    }
}

/// What [`CiString::new`] accepts: printable ASCII of at most `max` characters.
pub open spec fn ci_string_conformant(s: Seq<char>, max: nat) -> bool {
    all_printable_ascii(s) && s.len() <= max
}

/// The error [`CiString::new`] reports for a value it refuses.
pub open spec fn ci_string_error(s: Seq<char>, max: nat) -> InvalidString {
    if !all_printable_ascii(s) {
        ascii_char_error(s, StringKind::Ci)
    } else {
        InvalidString::spec_too_long(s.len() as usize, max as usize, StringKind::Ci)
    }
}

impl<const N: usize> CiString<N> {
    /// Creates a `CiString`, enforcing the character set and the length limit.
    ///
    /// The character set is checked first, so a value that breaks both rules is reported for its
    /// first offending character.
    pub fn new(value: &str) -> (res: Result<Self, InvalidString>)
        ensures
            res is Ok <==> ci_string_conformant(value@, N as nat),
            res matches Ok(s) ==> s@ == value@,
            res matches Err(e) ==> e == ci_string_error(value@, N as nat),
    {
        check_printable_ascii(value, StringKind::Ci)?;
        let len = value.unicode_len();
        if len > N {
            return Err(InvalidString::too_long(len, N, StringKind::Ci));
        }
        Ok(CiString(value.to_owned()))
    }

    /// Creates a `CiString` without enforcing anything, as decoding from the wire does.
    pub fn new_lenient(value: &str) -> (s: Self)
        ensures
            s@ == value@,
    {
        CiString(value.to_owned())
    }

    /// Wraps an owned string without enforcing anything.
    pub fn from_string_lenient(value: String) -> (s: Self)
        ensures
            s@ == value@,
    {
        CiString(value)
    }

    /// The string, in the case it was written in.
    pub fn as_str(&self) -> (r: &str)
        ensures
            r@ == self@,
    {
        self.0.as_str()
    }

    /// Consumes this string and yields the inner [`String`].
    pub fn into_string(self) -> (r: String)
        ensures
            r@ == self@,
    {
        self.0
    }

    /// The length in bytes, which for a conformant (ASCII) value is the length in characters.
    pub fn len(&self) -> (r: usize)
        ensures
            r == encode_utf8(self@).len() as usize,
    {
        self.0.as_str().len()
    }

    /// Whether the string is empty.
    pub fn is_empty(&self) -> (r: bool)
        ensures
            r == (self@.len() == 0),
    {
        self.0.as_str().is_empty()
    }

    /// Whether this value satisfies the spec constraints that [`CiString::new`] enforces.
    pub fn is_conformant(&self) -> (r: bool)
        ensures
            r == ci_string_conformant(self@, N as nat),
    {
        check_printable_ascii(self.0.as_str(), StringKind::Ci).is_ok() && self.0.as_str().unicode_len() <= N
    }

    /// Re-types this string to a different maximum length, enforcing the new limit.
    pub fn resize<const M: usize>(self) -> (res: Result<CiString<M>, InvalidString>)
        ensures
            res is Ok <==> ci_string_conformant(self@, M as nat),
            res matches Ok(s) ==> s@ == self@,
            res matches Err(e) ==> e == ci_string_error(self@, M as nat),
            res matches Err(e) ==> e.spec_kind() == StringKind::Ci && (e.spec_is_too_long() <==> all_printable_ascii(
                self@,
            )),
    {
        let res = CiString::<M>::new(self.0.as_str());
        proof {
            if let Err(e) = res {
                let i = first_bad_ascii(self@);
                InvalidString::lemma_error_shape(self@.len() as usize, M, i as usize, self@[i], StringKind::Ci);
            }
        }
        res
    }

    /// Compares against `other`, ignoring ASCII case.
    pub fn eq_ignore_case(&self, other: &str) -> (r: bool)
        ensures
            r == str_eq_ignore_case(self@, other@),
    {
        eq_ignore_ascii_case(self.0.as_str(), other)
    }

    /// Whether this value is the `#NA` sentinel, in any case.
    pub fn is_not_available(&self) -> (r: bool)
        ensures
            r == str_eq_ignore_case(self@, super::string::NOT_AVAILABLE@),
    {
        eq_ignore_ascii_case(self.0.as_str(), super::string::NOT_AVAILABLE)
    }
}

impl<const N: usize> PartialEq for CiString<N> {
    fn eq(&self, other: &Self) -> (r: bool) {
        eq_ignore_ascii_case(self.0.as_str(), other.0.as_str())
    }
}

impl<const N: usize> vstd::std_specs::cmp::PartialEqSpecImpl for CiString<N> {
    open spec fn obeys_eq_spec() -> bool {
        true
    }

    open spec fn eq_spec(&self, other: &Self) -> bool {
        str_eq_ignore_case(self@, other@)
    }
}

impl<const N: usize> Eq for CiString<N> {
}

impl<const N: usize> core::hash::Hash for CiString<N> {
    /// Hashes the ASCII lower-cased text, so that values equal ignoring case hash alike.
    fn hash<H: core::hash::Hasher>(&self, state: &mut H) {
        let folded = ascii_lowercased(self.0.as_str());
        hash_str(folded.as_str(), state);
    }
}

/// The violations a `CiString(max)` holding `s` reports: a character outside printable ASCII,
/// then length in bytes.
pub open spec fn ci_string_violations(s: Seq<char>, max: nat) -> Seq<ViolationView> {
    let chars = if all_printable_ascii(s) {
        Seq::<ViolationView>::empty()
    } else {
        seq![
            (
                Seq::<char>::empty(),
                ViolationCode::IllegalCharacter,
                ascii_char_error(s, StringKind::Ci).spec_message(),
            ),
        ]
    };
    let length = if encode_utf8(s).len() as usize <= max {
        Seq::<ViolationView>::empty()
    } else {
        seq![
            (
                Seq::<char>::empty(),
                ViolationCode::TooLong,
                "CiString("@ + dec_digits(max) + ") holds "@ + dec_digits(s.len()) + " characters"@,
            ),
        ]
    };
    chars + length
}

impl<const N: usize> Validate for CiString<N> {
    open spec fn violations(&self) -> Seq<ViolationView> {
        ci_string_violations(self@, N as nat)
    }

    fn validate_in(&self, v: &mut Validator)
        ensures
            final(v)@ == old(v)@ + ci_string_violations(self@, N as nat),
    {
        let ghost start = v@;
        if let Err(e) = check_printable_ascii(self.0.as_str(), StringKind::Ci) {
            v.report(ViolationCode::IllegalCharacter, e.to_string());
        }
        let bytes = self.0.as_str().len();
        if bytes > N {
            let mut m = String::new();
            push_str(&mut m, "CiString(");
            push_decimal(&mut m, N as u64);
            push_str(&mut m, ") holds ");
            push_decimal(&mut m, self.0.as_str().unicode_len() as u64);
            push_str(&mut m, " characters");
            v.report(ViolationCode::TooLong, m);
        }
        assert(v@ =~= start + ci_string_violations(self@, N as nat));
    }
}

/// Printable ASCII takes one byte a character in UTF-8.
proof fn lemma_ascii_bytes_are_chars(s: Seq<char>)
    requires
        all_printable_ascii(s),
    ensures
        encode_utf8(s).len() == s.len(),
    decreases s.len(),
{
    if s.len() > 0 {
        assert(all_printable_ascii(s.drop_first()));
        lemma_ascii_bytes_are_chars(s.drop_first());
    }
}

/// Parse permissively, validate explicitly, construct strictly — and the strict and explicit
/// halves agree: `CiString::new` accepts exactly the values that, held as decoding holds them,
/// validate with no violation.
pub proof fn lemma_ci_string_construction_agrees_with_validation(s: Seq<char>, max: nat)
    requires
        s.len() <= usize::MAX,
        max <= usize::MAX,
    ensures
        ci_string_conformant(s, max) <==> ci_string_violations(s, max).len() == 0,
{
    if all_printable_ascii(s) {
        lemma_ascii_bytes_are_chars(s);
    }
}


} // verus!
