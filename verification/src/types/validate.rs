//! Explicit validation: every deviation from the specification, with a JSON Pointer to it.

use vstd::prelude::*;

use crate::strings::push_str;

verus! {

/// What kind of rule a value broke.
#[derive(Clone, Copy, Debug, PartialEq, Eq, Hash, Structural)]
pub enum ViolationCode {
    /// A string or list is longer than the specification allows.
    TooLong,
    /// A character outside the type's character set.
    IllegalCharacter,
    /// The value contradicts another value, or the specification's own rules.
    Inconsistent,
    /// A list the specification requires to be non-empty is empty.
    EmptyRequiredList,
    /// A number carries more precision than the specification allows.
    Imprecise,
    /// A field that is required in this situation is absent.
    MissingConditional,
    /// A number outside the range the specification allows.
    OutOfRange,
}

/// One deviation: where it is, what rule it breaks and a human-readable explanation.
#[derive(Clone, Debug, PartialEq, Eq)]
pub struct Violation {
    /// RFC 6901 JSON Pointer to the offending value, `""` for the value itself.
    pub pointer: String,
    /// The rule broken.
    pub code: ViolationCode,
    /// What went wrong.
    pub message: String,
}

/// Every deviation found in one value, in the order they were found.
#[derive(Clone, Debug, PartialEq, Eq)]
pub struct Violations(Vec<Violation>);

/// A violation as the contracts see it: pointer, code and message.
pub type ViolationView = (Seq<char>, ViolationCode, Seq<char>);

/// The view of one violation.
pub open spec fn violation_view(v: Violation) -> ViolationView {
    (v.pointer@, v.code, v.message@)
}

impl View for Violations {
    type V = Seq<ViolationView>;

    closed spec fn view(&self) -> Seq<ViolationView> {
        self.0@.map_values(|v: Violation| violation_view(v))
    }
}

impl Violations {
    /// The violations, in the order they were found.
    pub fn as_slice(&self) -> (r: &[Violation])
        ensures
            r@.map_values(|v: Violation| violation_view(v)) == self@,
    {
        self.0.as_slice()
    }

    /// How many violations there are.
    pub fn len(&self) -> (r: usize)
        ensures
            r == self@.len(),
    {
        self.0.len()
    }

    /// Whether there are none.
    pub fn is_empty(&self) -> (r: bool)
        ensures
            r == (self@.len() == 0),
    {
        self.0.len() == 0
    }
}

/// One violation as text: its message, after its pointer and a colon when it has one.
pub open spec fn violation_text(v: ViolationView) -> Seq<char> {
    if v.0.len() == 0 {
        v.2
    } else {
        v.0 + ": "@ + v.2
    }
}

/// Violations as text, separated by semicolons.
pub open spec fn violations_text(s: Seq<ViolationView>) -> Seq<char>
    decreases s.len(),
{
    if s.len() == 0 {
        Seq::empty()
    } else if s.len() == 1 {
        violation_text(s[0])
    } else {
        violations_text(s.drop_last()) + "; "@ + violation_text(s.last())
    }
}

impl Violations {
    /// The violations as text, in the order they were found.
    pub fn to_string(&self) -> (s: String)
        ensures
            s@ == violations_text(self@),
    {
        let mut s = String::new();
        let n = self.0.len();
        let mut i: usize = 0;
        while i < n
            invariant
                i <= n,
                n == self@.len(),
                s@ == violations_text(self@.take(i as int)),
            decreases n - i,
        {
            let v = &self.0[i];
            if i > 0 {
                push_str(&mut s, "; ");
            }
            if v.pointer.as_str().unicode_len() > 0 {
                push_str(&mut s, v.pointer.as_str());
                push_str(&mut s, ": ");
            }
            push_str(&mut s, v.message.as_str());
            proof {
                assert(self@[i as int] == violation_view(*v));
                assert(self@.take(i + 1).drop_last() =~= self@.take(i as int));
            }
            i = i + 1;
        }
        assert(self@.take(n as int) =~= self@);
        s
    }
}

/// Collects violations while a value is walked.
#[derive(Clone, Debug)]
pub struct Validator {
    found: Vec<Violation>,
}

impl View for Validator {
    type V = Seq<ViolationView>;

    closed spec fn view(&self) -> Seq<ViolationView> {
        self.found@.map_values(|v: Violation| violation_view(v))
    }
}

impl Validator {
    /// A validator that has found nothing yet.
    pub fn new() -> (v: Self)
        ensures
            v@ == Seq::<ViolationView>::empty(),
    {
        let v = Validator { found: Vec::new() };
        assert(v@ =~= Seq::<ViolationView>::empty());
        v
    }

    /// Records a violation of the value being validated.
    pub fn report(&mut self, code: ViolationCode, message: String)
        ensures
            final(self)@ == old(self)@.push((Seq::<char>::empty(), code, message@)),
    {
        let pointer = String::new();
        let v = Violation { pointer, code, message };
        let ghost item = v;
        self.found.push(v);
        proof {
            assert(violation_view(item) == (Seq::<char>::empty(), code, message@));
            assert(self@ =~= old(self)@.push(violation_view(item)));
        }
    }

    /// The outcome: `Ok` when nothing was found.
    pub fn finish(self) -> (res: Result<(), Violations>)
        ensures
            res is Ok <==> self@.len() == 0,
            res matches Err(v) ==> v@ == self@,
    {
        if self.found.len() == 0 {
            Ok(())
        } else {
            Err(Violations(self.found))
        }
    }
}

/// A value that can be checked against the specification.
pub trait Validate {
    /// Every deviation of this value from the specification, in the order it is reported.
    spec fn violations(&self) -> Seq<ViolationView>;

    /// Reports every deviation of this value into `v`.
    fn validate_in(&self, v: &mut Validator)
        ensures
            final(v)@ == old(v)@ + self.violations(),
    ;

    /// Checks this value, collecting every deviation: `Ok` when there is none, and otherwise all
    /// of them in the order they were found.
    fn validate(&self) -> (r: Result<(), Violations>)
        ensures
            r is Ok <==> self.violations().len() == 0,
            r matches Err(found) ==> found@ == self.violations(),
    {
        let mut v = Validator::new();
        self.validate_in(&mut v);
        proof {
            assert(v@ =~= self.violations());
        }
        v.finish()
    }
}

} // verus!
