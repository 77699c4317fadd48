//! The identifier types: country codes, party ids, EVSE ids and the party reference they form.

use vstd::prelude::*;
use vstd::utf8::{
    decode_utf8, encode_utf8, encode_utf8_decode_utf8, encode_utf8_valid_utf8, is_ascii_chars,
    is_ascii_chars_encode_utf8, is_char_boundary, is_char_boundary_iff_not_is_continuation_byte,
};

use crate::strings::{ascii_lowercase, 
    chars_of, chars_without, debug_text, push_debug_str, is_ascii_alphabetic, is_ascii_alphanumeric, lemma_encode_utf8_concat, push_str,
    string_from_chars, without_char,
};

use super::cistring::{CiString, ci_string_conformant, ci_string_error};
use super::string::OcpiString;
use super::text::{InvalidString, StringKind, all_printable_ascii, ascii_char_error, check_printable_ascii};

verus! {

/// ISO-3166 alpha-2 country code of a party: `CiString(2)`.
pub type CountryCode = CiString<2>;

/// The party id of a CPO or eMSP, ISO-15118 style: `CiString(3)`.
pub type PartyId = CiString<3>;

/// ISO 4217 currency code: `string(3)`.
pub type Currency = OcpiString<3>;

/// An EVSE id, as written: `CiString(48)`.
pub type EvseId = CiString<48>;

/// A contract id (eMA id), as written: `CiString(36)`.
pub type ContractId = CiString<36>;

/// An ASCII letter, as a byte.
pub open spec fn alpha_byte(b: u8) -> bool {
    (65 <= b <= 90) || (97 <= b <= 122)
}

fn is_alpha_byte(b: u8) -> (r: bool)
    ensures
        r == alpha_byte(b),
{
    (65 <= b && b <= 90) || (97 <= b && b <= 122)
}

/// An advisory shape check on a country code.
pub trait CountryCodeExt {
    /// Whether the value looks like an ISO 3166-1 alpha-2 code: exactly two ASCII letters.
    fn is_iso_shaped(&self) -> bool;
}

impl CountryCodeExt for CiString<2> {
    fn is_iso_shaped(&self) -> (r: bool)
        ensures
            r == (encode_utf8(self@).len() == 2 && alpha_byte(encode_utf8(self@)[0]) && alpha_byte(
                encode_utf8(self@)[1],
            )),
    {
        let b = self.as_str().as_bytes();
        b.len() == 2 && is_alpha_byte(b[0]) && is_alpha_byte(b[1])
    }
}

/// Why a string is not a `country_code`/`party_id` pair.
#[derive(Clone, Debug, PartialEq, Eq)]
pub struct InvalidPartyRef(String);

impl InvalidPartyRef {
    /// The explanation.
    pub closed spec fn spec_message(&self) -> Seq<char> {
        self.0@
    }

    /// The explanation, as `Display` writes it.
    pub fn to_string(&self) -> (s: String)
        ensures
            s@ == self.spec_message(),
    {
        self.0.clone()
    }
}

/// Where the first `/` or `*` of `s` stands, if there is one.
pub open spec fn first_party_separator(s: Seq<char>) -> Option<int> {
    if exists|i: int| 0 <= i < s.len() && (s[i] == '/' || s[i] == '*') {
        Some(
            choose|i: int|
                0 <= i < s.len() && (s[i] == '/' || s[i] == '*') && forall|j: int|
                    0 <= j < i ==> s[j] != '/' && s[j] != '*',
        )
    } else {
        None
    }
}

/// A party as it is written: `country_code/party_id`.
pub open spec fn party_text(p: PartyRef) -> Seq<char> {
    p.country_code@ + "/"@ + p.party_id@
}

/// A party: the `country_code`/`party_id` pair every OCPI role is identified by.
#[derive(Debug, PartialEq, Eq)]
pub struct PartyRef {
    /// ISO-3166 alpha-2 country code.
    pub country_code: CountryCode,
    /// The party id.
    pub party_id: PartyId,
}

impl Clone for PartyRef {
    fn clone(&self) -> (r: Self)
        ensures
            r == *self,
    {
        PartyRef { country_code: self.country_code.clone(), party_id: self.party_id.clone() }
    }
}

/// Whether [`PartyRef::new`] accepts this pair.
pub open spec fn party_ref_conformant(country_code: Seq<char>, party_id: Seq<char>) -> bool {
    ci_string_conformant(country_code, 2) && ci_string_conformant(party_id, 3)
}

/// The error [`PartyRef::new`] reports for a pair it refuses: the country code's if that is
/// wrong, otherwise the party id's.
pub open spec fn party_ref_error(country_code: Seq<char>, party_id: Seq<char>) -> InvalidString {
    if !ci_string_conformant(country_code, 2) {
        ci_string_error(country_code, 2)
    } else {
        ci_string_error(party_id, 3)
    }
}

impl PartyRef {
    /// Creates a party reference, enforcing both `CiString` limits.
    pub fn new(country_code: &str, party_id: &str) -> (res: Result<Self, InvalidString>)
        ensures
            res is Ok <==> party_ref_conformant(country_code@, party_id@),
            res matches Ok(p) ==> p.country_code@ == country_code@ && p.party_id@ == party_id@,
            res matches Err(e) ==> e == party_ref_error(country_code@, party_id@),
    {
        let country_code = CiString::<2>::new(country_code)?;
        let party_id = CiString::<3>::new(party_id)?;
        Ok(PartyRef { country_code, party_id })
    }

    /// The party as it is written: `country_code/party_id`.
    pub fn to_string(&self) -> (s: String)
        ensures
            s@ == party_text(*self),
    {
        let mut s = String::new();
        push_str(&mut s, self.country_code.as_str());
        push_str(&mut s, "/");
        push_str(&mut s, self.party_id.as_str());
        s
    }

    /// Reads `country_code/party_id` (or `country_code*party_id`), splitting at the first `/`
    /// or `*`.
    pub fn parse(s: &str) -> (res: Result<Self, InvalidPartyRef>)
        ensures
            match first_party_separator(s@) {
                None => res matches Err(e) && e.spec_message() == debug_text(s@)
                    + " is not \"<country>/<party>\""@,
                Some(i) => {
                    let cc = s@.subrange(0, i);
                    let pid = s@.subrange(i + 1, s@.len() as int);
                    &&& (res is Ok <==> party_ref_conformant(cc, pid))
                    &&& (res matches Ok(p) ==> p.country_code@ == cc && p.party_id@ == pid)
                    &&& (res matches Err(e) ==> e.spec_message() == party_ref_error(
                        cc,
                        pid,
                    ).spec_message())
                },
            },
    {
        let chars = chars_of(s);
        let n = chars.len();
        let mut i: usize = 0;
        while i < n
            invariant
                i <= n,
                n == s@.len(),
                chars@ == s@,
                forall|j: int| 0 <= j < i ==> s@[j] != '/' && s@[j] != '*',
            ensures
                i <= n,
                forall|j: int| 0 <= j < i ==> s@[j] != '/' && s@[j] != '*',
                i < n ==> s@[i as int] == '/' || s@[i as int] == '*',
            decreases n - i,
        {
            if chars[i] == '/' || chars[i] == '*' {
                break;
            }
            i = i + 1;
        }
        if i == n {
            let mut m = String::new();
            push_debug_str(&mut m, s);
            push_str(&mut m, " is not \"<country>/<party>\"");
            return Err(InvalidPartyRef(m));
        }
        proof {
            assert(s@[i as int] == '/' || s@[i as int] == '*');
            let k = first_party_separator(s@)->0;
            assert(first_party_separator(s@) is Some);
            if k < i {
                assert(s@[k] != '/' && s@[k] != '*');
            }
            if k > i {
                assert(s@[i as int] != '/' && s@[i as int] != '*');
            }
            assert(k == i);
        }
        let country = string_from_chars(&chars, 0, i);
        let party = string_from_chars(&chars, i + 1, n);
        match Self::new(country.as_str(), party.as_str()) {
            Ok(p) => Ok(p),
            Err(e) => Err(InvalidPartyRef(e.to_string())),
        }
    }

    /// The five-character hub party id: the country code followed by the party id.
    pub fn to_hub_party_id(&self) -> (r: CiString<5>)
        ensures
            r@ == self.country_code@ + self.party_id@,
    {
        let mut text = String::new();
        push_str(&mut text, self.country_code.as_str());
        push_str(&mut text, self.party_id.as_str());
        assert(text@ =~= self.country_code@ + self.party_id@);
        CiString::from_string_lenient(text)
    }

    /// Splits a five-character hub party id back into its two halves.
    ///
    /// A value whose UTF-8 encoding is not five bytes long is refused as too long, with its byte
    /// length; a five-byte value that is not five ASCII characters, so that its second byte ends
    /// inside a character, is refused for its first character outside printable ASCII; otherwise
    /// the first two bytes are the country code and the last three the party id.
    pub fn from_hub_party_id(value: &CiString<5>) -> (res: Result<Self, InvalidString>)
        requires
            encode_utf8(value@).len() <= usize::MAX,
        ensures
            encode_utf8(value@).len() != 5 ==> res == Err::<Self, InvalidString>(
                InvalidString::spec_too_long(
                    encode_utf8(value@).len() as usize,
                    5,
                    StringKind::Ci,
                ),
            ),
            encode_utf8(value@).len() == 5 && !is_char_boundary(encode_utf8(value@), 2) ==> res
                == Err::<Self, InvalidString>(ascii_char_error(value@, StringKind::Ci)),
            encode_utf8(value@).len() == 5 && is_char_boundary(encode_utf8(value@), 2) ==> {
                let cc = decode_utf8(encode_utf8(value@).subrange(0, 2));
                let pid = decode_utf8(encode_utf8(value@).subrange(2, 5));
                &&& (res is Ok <==> party_ref_conformant(cc, pid))
                &&& (res matches Ok(p) ==> p.country_code@ == cc && p.party_id@ == pid)
                &&& (res matches Err(e) ==> e == party_ref_error(cc, pid))
            },
    {
        let text = value.as_str();
        let len = text.len();
        if len != 5 {
            return Err(InvalidString::too_long(len, 5, StringKind::Ci));
        }
        if !text.is_char_boundary(2) {
            proof {
                lemma_ascii_text_splits_anywhere(text@, 2);
            }
            return match check_printable_ascii(text, StringKind::Ci) {
                Err(e) => Err(e),
                // Not reached: printable ASCII splits at every byte.
                Ok(()) => Err(InvalidString::too_long(len, 5, StringKind::Ci)),
            };
        }
        let (head, tail) = text.split_at(2);
        proof {
            broadcast use encode_utf8_decode_utf8;

            assert(decode_utf8(encode_utf8(head@)) == head@);
            assert(decode_utf8(encode_utf8(tail@)) == tail@);
        }
        Self::new(head, tail)
    }
}

/// A text of printable ASCII has a character boundary at every byte.
proof fn lemma_ascii_text_splits_anywhere(s: Seq<char>, i: int)
    requires
        0 <= i < encode_utf8(s).len(),
    ensures
        all_printable_ascii(s) ==> is_char_boundary(encode_utf8(s), i),
{
    broadcast use is_ascii_chars_encode_utf8, encode_utf8_valid_utf8;

    if all_printable_ascii(s) {
        assert(is_ascii_chars(s));
        assert(encode_utf8(s)[i] == s[i] as u8);
        is_char_boundary_iff_not_is_continuation_byte(encode_utf8(s), i);
    }
}

/// The hub party id of a conformant party reference splits back into the same party.
pub proof fn lemma_hub_party_id_round_trip(country_code: Seq<char>, party_id: Seq<char>)
    requires
        party_ref_conformant(country_code, party_id),
        country_code.len() == 2,
        party_id.len() == 3,
    ensures
        encode_utf8(country_code + party_id).len() == 5,
        is_char_boundary(encode_utf8(country_code + party_id), 2),
        decode_utf8(encode_utf8(country_code + party_id).subrange(0, 2)) == country_code,
        decode_utf8(encode_utf8(country_code + party_id).subrange(2, 5)) == party_id,
{
    broadcast use is_ascii_chars_encode_utf8, encode_utf8_decode_utf8, encode_utf8_valid_utf8;

    let both = country_code + party_id;
    lemma_encode_utf8_concat(country_code, party_id);
    assert(is_ascii_chars(country_code));
    assert(is_ascii_chars(party_id));
    let bytes = encode_utf8(both);
    assert(bytes.subrange(0, 2) =~= encode_utf8(country_code));
    assert(bytes.subrange(2, 5) =~= encode_utf8(party_id));
    assert(bytes[2] == party_id[0] as u8);
    is_char_boundary_iff_not_is_continuation_byte(bytes, 2);
}

/// The three parts of an EVSE id: `<country><operator>E<outlet>`.
#[derive(Clone, Debug, PartialEq, Eq)]
pub struct EvseIdParts {
    /// The two-letter country code.
    pub country_code: String,
    /// The three-character spot operator id.
    pub spot_operator: String,
    /// The power outlet id, without the `E` that introduces it.
    pub power_outlet_id: String,
}

/// Whether `t`, an EVSE id with its `*` separators removed, has the shape
/// `<2 letters><3 alphanumerics>E<1+ of alphanumerics and '-'>`.
pub open spec fn evse_id_shape(t: Seq<char>) -> bool {
    &&& t.len() >= 7
    &&& forall|i: int| 0 <= i < 5 ==> is_ascii_alphanumeric(#[trigger] t[i])
    &&& forall|i: int| 0 <= i < 2 ==> is_ascii_alphabetic(#[trigger] t[i])
    &&& (t[5] == 'E' || t[5] == 'e')
    &&& forall|i: int|
        6 <= i < t.len() ==> is_ascii_alphanumeric(#[trigger] t[i]) || t[i] == '-' || t[i] == '*'
}

impl EvseIdParts {
    /// Splits an EVSE id, with or without its `*` separators.
    ///
    /// Returns `None` for anything that does not have the `<country><operator>E<outlet>` shape.
    pub fn parse(id: &str) -> (res: Option<Self>)
        ensures
            res is Some <==> evse_id_shape(without_char(id@, '*')),
            res matches Some(p) ==> {
                let t = without_char(id@, '*');
                &&& p.country_code@ == t.subrange(0, 2)
                &&& p.spot_operator@ == t.subrange(2, 5)
                &&& p.power_outlet_id@ == t.subrange(6, t.len() as int)
            },
    {
        let t = chars_without(id, '*');
        if t.len() < 7 {
            return None;
        }
        let mut i: usize = 0;
        while i < 5
            invariant
                t@ == without_char(id@, '*'),
                t@.len() >= 7,
                i <= 5,
                forall|j: int| 0 <= j < i ==> is_ascii_alphanumeric(#[trigger] t@[j]),
            decreases 5 - i,
        {
            let c = t[i];
            if !(('0' <= c && c <= '9') || ('A' <= c && c <= 'Z') || ('a' <= c && c <= 'z')) {
                return None;
            }
            i = i + 1;
        }
        let a = t[0];
        let b = t[1];
        if !((('A' <= a && a <= 'Z') || ('a' <= a && a <= 'z')) && (('A' <= b && b <= 'Z') || (
        'a' <= b && b <= 'z'))) {
            return None;
        }
        if !(t[5] == 'E' || t[5] == 'e') {
            return None;
        }
        let mut k: usize = 6;
        while k < t.len()
            invariant
                t@ == without_char(id@, '*'),
                6 <= k <= t@.len(),
                forall|j: int|
                    6 <= j < k ==> is_ascii_alphanumeric(#[trigger] t@[j]) || t@[j] == '-' || t@[j]
                        == '*',
            decreases t@.len() - k,
        {
            let c = t[k];
            if !(('0' <= c && c <= '9') || ('A' <= c && c <= 'Z') || ('a' <= c && c <= 'z') || c
                == '-' || c == '*') {
                return None;
            }
            k = k + 1;
        }
        Some(
            EvseIdParts {
                country_code: string_from_chars(&t, 0, 2),
                spot_operator: string_from_chars(&t, 2, 5),
                power_outlet_id: string_from_chars(&t, 6, t.len()),
            },
        )
    }

    /// The party that operates the EVSE.
    pub fn party(&self) -> (res: Result<PartyRef, InvalidString>)
        ensures
            res is Ok <==> party_ref_conformant(self.country_code@, self.spot_operator@),
            res matches Ok(p) ==> p.country_code@ == self.country_code@ && p.party_id@
                == self.spot_operator@,
            res matches Err(e) ==> e == party_ref_error(self.country_code@, self.spot_operator@),
    {
        PartyRef::new(self.country_code.as_str(), self.spot_operator.as_str())
    }

    /// The id in its separated form, `<country>*<operator>*E<outlet>`.
    pub fn to_separated(&self) -> (s: String)
        ensures
            s@ == self.country_code@ + "*"@ + self.spot_operator@ + "*E"@ + self.power_outlet_id@,
    {
        let mut s = String::new();
        push_str(&mut s, self.country_code.as_str());
        push_str(&mut s, "*");
        push_str(&mut s, self.spot_operator.as_str());
        push_str(&mut s, "*E");
        push_str(&mut s, self.power_outlet_id.as_str());
        assert(s@ =~= self.country_code@ + "*"@ + self.spot_operator@ + "*E"@ + self.power_outlet_id@);
        s
    }
}


/// A text with no `c` loses nothing when `c` is removed.
proof fn lemma_without_absent(s: Seq<char>, c: char)
    requires
        forall|i: int| 0 <= i < s.len() ==> s[i] != c,
    ensures
        without_char(s, c) == s,
    decreases s.len(),
{
    reveal(Seq::filter);
    if s.len() > 0 {
        lemma_without_absent(s.drop_last(), c);
        assert(s.drop_last().push(s.last()) =~= s);
    }
}

/// Removing `c` leaves no `c`.
proof fn lemma_without_excludes(s: Seq<char>, c: char)
    ensures
        forall|i: int| 0 <= i < without_char(s, c).len() ==> without_char(s, c)[i] != c,
    decreases s.len(),
{
    reveal(Seq::filter);
    if s.len() > 0 {
        lemma_without_excludes(s.drop_last(), c);
    }
}

/// The separated form of an EVSE id parses back to the same parts: removing its separators
/// gives the parts again, with the `E` that introduces the outlet; and it is the id itself with
/// its separators removed, ignoring ASCII case.
pub proof fn lemma_separated_form_parses_back(id: Seq<char>)
    requires
        evse_id_shape(without_char(id, '*')),
    ensures
        ({
            let t = without_char(id, '*');
            let sep = t.subrange(0, 2) + "*"@ + t.subrange(2, 5) + "*E"@ + t.subrange(6, t.len() as int);
            let u = without_char(sep, '*');
            &&& evse_id_shape(u)
            &&& u.subrange(0, 2) == t.subrange(0, 2)
            &&& u.subrange(2, 5) == t.subrange(2, 5)
            &&& u.subrange(6, u.len() as int) == t.subrange(6, t.len() as int)
            &&& ascii_lowercase(u) == ascii_lowercase(t)
        }),
{
    broadcast use Seq::filter_distributes_over_add;

    reveal_strlit("*");
    reveal_strlit("*E");
    let t = without_char(id, '*');
    lemma_without_excludes(id, '*');
    let cc = t.subrange(0, 2);
    let op = t.subrange(2, 5);
    let out = t.subrange(6, t.len() as int);
    lemma_without_absent(cc, '*');
    lemma_without_absent(op, '*');
    lemma_without_absent(out, '*');
    lemma_without_absent(seq!['E'], '*');
    assert(without_char(seq!['*'], '*') =~= Seq::<char>::empty()) by {
        reveal_with_fuel(Seq::filter, 2);
        assert(seq!['*'].drop_last() =~= Seq::<char>::empty());
    }
    assert("*"@ =~= seq!['*']);
    assert("*E"@ =~= seq!['*'] + seq!['E']);
    let sep = cc + "*"@ + op + "*E"@ + out;
    let u = without_char(sep, '*');
    assert(u =~= cc + op + seq!['E'] + out);
    assert(u.subrange(0, 2) =~= cc);
    assert(u.subrange(2, 5) =~= op);
    assert(u.subrange(6, u.len() as int) =~= out);
    assert(u[5] == 'E');
    assert forall|i: int| 0 <= i < 5 implies u[i] == t[i] by {}
    assert forall|i: int| 6 <= i < u.len() implies u[i] == t[i] by {}
    assert(u.len() == t.len());
    assert forall|i: int| 0 <= i < u.len() implies ascii_lowercase(u)[i] == ascii_lowercase(t)[i] by {
        if i != 5 {
            assert(u[i] == t[i]);
        }
    }
    assert(ascii_lowercase(u) =~= ascii_lowercase(t));
}

impl core::str::FromStr for PartyRef {
    type Err = InvalidPartyRef;

    fn from_str(s: &str) -> (res: Result<Self, Self::Err>)
        ensures
            match first_party_separator(s@) {
                None => res matches Err(e) && e.spec_message() == debug_text(s@)
                    + " is not \"<country>/<party>\""@,
                Some(i) => {
                    let cc = s@.subrange(0, i);
                    let pid = s@.subrange(i + 1, s@.len() as int);
                    &&& (res is Ok <==> party_ref_conformant(cc, pid))
                    &&& (res matches Ok(p) ==> p.country_code@ == cc && p.party_id@ == pid)
                    &&& (res matches Err(e) ==> e.spec_message() == party_ref_error(
                        cc,
                        pid,
                    ).spec_message())
                },
            },
    {
        Self::parse(s)
    }
}

} // verus!
