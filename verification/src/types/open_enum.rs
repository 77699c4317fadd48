//! What the closed and open OCPI enums share: the error for an unknown value and the validation
//! of a preserved one.

use vstd::prelude::*;

use crate::strings::{debug_text, push_debug_str, push_str};

use super::text::{is_control, no_control};
use super::validate::{Validator, ViolationCode, ViolationView};

verus! {

/// Why a string is not a member of a closed OCPI enum.
#[derive(Clone, Debug, PartialEq, Eq)]
pub struct UnknownVariant {
    enum_name: &'static str,
    value: String,
    allowed: &'static [&'static str],
}

/// `items` joined with `", "`.
pub open spec fn joined(items: Seq<Seq<char>>) -> Seq<char>
    decreases items.len(),
{
    if items.len() == 0 {
        Seq::empty()
    } else if items.len() == 1 {
        items[0]
    } else {
        joined(items.drop_last()) + ", "@ + items.last()
    }
}

impl UnknownVariant {
    /// The name of the enum.
    pub closed spec fn spec_enum_name(&self) -> Seq<char> {
        self.enum_name@
    }

    /// The value that was not recognised.
    pub closed spec fn spec_value(&self) -> Seq<char> {
        self.value@
    }

    /// The values the enum accepts.
    pub closed spec fn spec_allowed(&self) -> Seq<Seq<char>> {
        self.allowed@.map_values(|a: &str| a@)
    }

    /// Creates an error for `value`, which is not one of `allowed`.
    pub fn new(enum_name: &'static str, value: &str, allowed: &'static [&'static str]) -> (e: Self)
        ensures
            e.spec_enum_name() == enum_name@,
            e.spec_value() == value@,
            e.spec_allowed() == allowed@.map_values(|a: &str| a@),
    {
        UnknownVariant { enum_name, value: value.to_owned(), allowed }
    }

    /// The value that was not recognised.
    pub fn value(&self) -> (r: &str)
        ensures
            r@ == self.spec_value(),
    {
        self.value.as_str()
    }

    /// The name of the enum that rejected it.
    pub fn enum_name(&self) -> (r: &'static str)
        ensures
            r@ == self.spec_enum_name(),
    {
        self.enum_name
    }

    /// Every value the enum does accept.
    pub fn allowed(&self) -> (r: &'static [&'static str])
        ensures
            r@.map_values(|a: &str| a@) == self.spec_allowed(),
    {
        self.allowed
    }

    /// The explanation a person reads.
    pub fn to_string(&self) -> (s: String)
        ensures
            s@ == debug_text(self.spec_value()) + " is not a valid "@ + self.spec_enum_name()
                + "; expected one of "@ + joined(self.spec_allowed()),
    {
        let mut s = String::new();
        push_debug_str(&mut s, self.value.as_str());
        push_str(&mut s, " is not a valid ");
        push_str(&mut s, self.enum_name);
        push_str(&mut s, "; expected one of ");
        let ghost prefix = s@;
        let ghost names = self.allowed@.map_values(|a: &str| a@);
        let mut i: usize = 0;
        while i < self.allowed.len()
            invariant
                i <= self.allowed@.len(),
                names == self.allowed@.map_values(|a: &str| a@),
                s@ == prefix + joined(names.subrange(0, i as int)),
            decreases self.allowed@.len() - i,
        {
            proof {
                assert(names.subrange(0, i + 1).drop_last() =~= names.subrange(0, i as int));
            }
            if i > 0 {
                push_str(&mut s, ", ");
            }
            push_str(&mut s, self.allowed[i]);
            proof {
                if i == 0 {
                    assert(joined(names.subrange(0, 1)) == names[0]);
                }
                assert(s@ =~= prefix + joined(names.subrange(0, i + 1)));
            }
            i = i + 1;
        }
        assert(names.subrange(0, self.allowed@.len() as int) =~= names);
        s
    }
}

/// What [`validate_open_enum_value`] reports for a preserved value: an empty value, or a value
/// carrying a control character.
pub open spec fn open_enum_value_violations(enum_name: Seq<char>, value: Seq<char>) -> Seq<
    ViolationView,
> {
    if value.len() == 0 {
        seq![(Seq::<char>::empty(), ViolationCode::IllegalCharacter, enum_name + " value is empty"@)]
    } else if !no_control(value) {
        seq![
            (
                Seq::<char>::empty(),
                ViolationCode::IllegalCharacter,
                enum_name + " value "@ + debug_text(value) + " contains a control character"@,
            ),
        ]
    } else {
        Seq::empty()
    }
}

/// Shared validation for the preserved value of an open enum.
///
/// An unrecognised value is a legitimate extension, so the value itself is never reported; what
/// is reported is a value that could not have come off a conformant wire at all.
pub fn validate_open_enum_value(enum_name: &'static str, value: &str, v: &mut Validator)
    ensures
        final(v)@ == old(v)@ + open_enum_value_violations(enum_name@, value@),
{
    let ghost start = v@;
    if value.is_empty() {
        let mut m = String::new();
        push_str(&mut m, enum_name);
        push_str(&mut m, " value is empty");
        v.report(ViolationCode::IllegalCharacter, m);
        assert(v@ =~= start + open_enum_value_violations(enum_name@, value@));
        return ;
    }
    let n = value.unicode_len();
    let mut i: usize = 0;
    let mut found = false;
    while i < n
        invariant
            n == value@.len(),
            i <= n,
            found == !no_control(value@.subrange(0, i as int)),
        decreases n - i,
    {
        let c = value.get_char(i);
        assert(value@.subrange(0, i + 1) =~= value@.subrange(0, i as int).push(c));
        if c <= '\u{1f}' || ('\u{7f}' <= c && c <= '\u{9f}') {
            assert(value@.subrange(0, i + 1)[i as int] == c);
            found = true;
        }
        i = i + 1;
    }
    assert(value@.subrange(0, n as int) =~= value@);
    if found {
        let mut m = String::new();
        push_str(&mut m, enum_name);
        push_str(&mut m, " value ");
        push_debug_str(&mut m, value);
        push_str(&mut m, " contains a control character");
        v.report(ViolationCode::IllegalCharacter, m);
    }
    assert(v@ =~= start + open_enum_value_violations(enum_name@, value@));
}

/// The explanation [`validate_closed_enum_value`] gives for a kept, undefined value.
pub open spec fn closed_enum_message(enum_name: Seq<char>, value: Seq<char>) -> Seq<char> {
    debug_text(value) + " is not one of the values this version of the specification defines for "@
        + enum_name
        + ", which it declares as a closed enum; the value was kept rather than dropped, but a conformant peer would not have sent it"@
}

/// What is reported of the preserved value of an enum the specification declares closed: what
/// any open enum value is checked for, then that the value is not one the enum defines.
pub open spec fn closed_enum_value_violations(enum_name: Seq<char>, value: Seq<char>) -> Seq<ViolationView> {
    open_enum_value_violations(enum_name, value) + seq![
        (Seq::<char>::empty(), ViolationCode::Inconsistent, closed_enum_message(enum_name, value)),
    ]
}

/// Shared validation for the preserved value of an enum the specification declares closed: the
/// value is kept, but reported.
pub fn validate_closed_enum_value(enum_name: &'static str, value: &str, v: &mut Validator)
    ensures
        final(v)@ == old(v)@ + open_enum_value_violations(enum_name@, value@) + seq![
            (
                Seq::<char>::empty(),
                ViolationCode::Inconsistent,
                closed_enum_message(enum_name@, value@),
            ),
        ],
{
    validate_open_enum_value(enum_name, value, v);
    let mut m = String::new();
    push_debug_str(&mut m, value);
    push_str(&mut m, " is not one of the values this version of the specification defines for ");
    push_str(&mut m, enum_name);
    push_str(
        &mut m,
        ", which it declares as a closed enum; the value was kept rather than dropped, but a conformant peer would not have sent it",
    );
    v.report(ViolationCode::Inconsistent, m);
}

} // verus!
