//! The OCPI 2.1.1 Sessions module: the state of a session.

use vstd::prelude::*;

use crate::strings::{eq_ignore_ascii_case, hash_str, str_eq, str_eq_ignore_case};
use crate::types::open_enum::{
    closed_enum_message, closed_enum_value_violations, open_enum_value_violations, validate_closed_enum_value,
};
use crate::types::validate::{Validate, Validator, ViolationCode, ViolationView};

verus! {

/// The state of a session, in OCPI 2.1.1. `RESERVATION` arrived in OCPI 2.2, with the
/// reservation pricing that needed it; the specification declares this enum closed.
#[derive(Clone, Debug)]
#[non_exhaustive]
pub enum SessionStatus {
    /// The session is accepted and active.
    Active,
    /// The session has finished successfully.
    Completed,
    /// The session is declared invalid and will not be billed.
    Invalid,
    /// The session is pending; it has not yet started.
    Pending,
    /// A value this version of the specification does not define, preserved verbatim.
    Custom(String),
}

/// The wire value of a [`SessionStatus`].
pub open spec fn session_status_wire(v: SessionStatus) -> Seq<char> {
    match v {
        SessionStatus::Active => "ACTIVE"@,
        SessionStatus::Completed => "COMPLETED"@,
        SessionStatus::Invalid => "INVALID"@,
        SessionStatus::Pending => "PENDING"@,
        SessionStatus::Custom(s) => s@,
    }
}

/// The defined value whose wire form is exactly `s`, if there is one.
pub open spec fn session_status_known(s: Seq<char>) -> Option<SessionStatus> {
    if s == "ACTIVE"@ {
        Some(SessionStatus::Active)
    } else if s == "COMPLETED"@ {
        Some(SessionStatus::Completed)
    } else if s == "INVALID"@ {
        Some(SessionStatus::Invalid)
    } else if s == "PENDING"@ {
        Some(SessionStatus::Pending)
    } else {
        None
    }
}

/// The defined value whose wire form equals `s` ignoring ASCII case, if there is one.
pub open spec fn session_status_known_ignore_case(s: Seq<char>) -> Option<SessionStatus> {
    if str_eq_ignore_case(s, "ACTIVE"@) {
        Some(SessionStatus::Active)
    } else if str_eq_ignore_case(s, "COMPLETED"@) {
        Some(SessionStatus::Completed)
    } else if str_eq_ignore_case(s, "INVALID"@) {
        Some(SessionStatus::Invalid)
    } else if str_eq_ignore_case(s, "PENDING"@) {
        Some(SessionStatus::Pending)
    } else {
        None
    }
}

impl SessionStatus {
    /// Every wire value this version of the specification defines, in declaration order.
    pub fn all_known_wire() -> (r: Vec<&'static str>)
        ensures
            r@.map_values(|w: &str| w@) == seq!["ACTIVE"@, "COMPLETED"@, "INVALID"@, "PENDING"@],
    {
        let mut r = Vec::new();
        r.push("ACTIVE");
        r.push("COMPLETED");
        r.push("INVALID");
        r.push("PENDING");
        r
    }

    /// Every value this version of the specification defines, in declaration order.
    pub fn all_known() -> (r: Vec<SessionStatus>)
        ensures
            r@ == seq![
                SessionStatus::Active,
                SessionStatus::Completed,
                SessionStatus::Invalid,
                SessionStatus::Pending,
            ],
    {
        let mut r = Vec::new();
        r.push(SessionStatus::Active);
        r.push(SessionStatus::Completed);
        r.push(SessionStatus::Invalid);
        r.push(SessionStatus::Pending);
        r
    }

    /// The value as it appears on the wire.
    pub fn as_str(&self) -> (s: &str)
        ensures
            s@ == session_status_wire(*self),
    {
        match self {
            SessionStatus::Active => "ACTIVE",
            SessionStatus::Completed => "COMPLETED",
            SessionStatus::Invalid => "INVALID",
            SessionStatus::Pending => "PENDING",
            SessionStatus::Custom(v) => v.as_str(),
        }
    }

    /// Whether this is a value the specification defines.
    pub fn is_known(&self) -> (r: bool)
        ensures
            r == !(*self is Custom),
    {
        match self {
            SessionStatus::Custom(_) => false,
            _ => true,
        }
    }

    /// Parses a wire value exactly; any other text is kept as `Custom`.
    pub fn parse(s: &str) -> (r: Self)
        ensures
            match session_status_known(s@) {
                Some(k) => r == k,
                None => r matches SessionStatus::Custom(x) && x@ == s@,
            },
    {
        if str_eq(s, "ACTIVE") {
            return SessionStatus::Active;
        }
        if str_eq(s, "COMPLETED") {
            return SessionStatus::Completed;
        }
        if str_eq(s, "INVALID") {
            return SessionStatus::Invalid;
        }
        if str_eq(s, "PENDING") {
            return SessionStatus::Pending;
        }
        SessionStatus::Custom(String::from_str(s))
    }

    /// Parses a wire value ignoring ASCII case for the defined values, for peers that get the
    /// case wrong; `parse` is strict.
    pub fn from_str_ignore_case(s: &str) -> (r: Self)
        ensures
            match session_status_known_ignore_case(s@) {
                Some(k) => r == k,
                None => r matches SessionStatus::Custom(x) && x@ == s@,
            },
    {
        if eq_ignore_ascii_case(s, "ACTIVE") {
            return SessionStatus::Active;
        }
        if eq_ignore_ascii_case(s, "COMPLETED") {
            return SessionStatus::Completed;
        }
        if eq_ignore_ascii_case(s, "INVALID") {
            return SessionStatus::Invalid;
        }
        if eq_ignore_ascii_case(s, "PENDING") {
            return SessionStatus::Pending;
        }
        SessionStatus::Custom(String::from_str(s))
    }

    /// The wire value, as `Display` writes it.
    pub fn to_string(&self) -> (s: String)
        ensures
            s@ == session_status_wire(*self),
    {
        String::from_str(self.as_str())
    }
}

impl core::str::FromStr for SessionStatus {
    type Err = core::convert::Infallible;

    fn from_str(s: &str) -> (res: Result<Self, Self::Err>)
        ensures
            res matches Ok(r) && match session_status_known(s@) {
                Some(k) => r == k,
                None => r matches SessionStatus::Custom(x) && x@ == s@,
            },
    {
        Ok(Self::parse(s))
    }
}

impl From<&str> for SessionStatus {
    fn from(s: &str) -> Self {
        Self::parse(s)
    }
}

impl vstd::std_specs::convert::FromSpecImpl<&str> for SessionStatus {
    open spec fn obeys_from_spec() -> bool {
        false
    }

    open spec fn from_spec(v: &str) -> Self {
        match session_status_known(v@) {
            Some(k) => k,
            None => vstd::pervasive::arbitrary(),
        }
    }
}

impl PartialEq for SessionStatus {
    fn eq(&self, other: &Self) -> (r: bool) {
        str_eq(self.as_str(), other.as_str())
    }
}

impl vstd::std_specs::cmp::PartialEqSpecImpl for SessionStatus {
    open spec fn obeys_eq_spec() -> bool {
        true
    }

    open spec fn eq_spec(&self, other: &Self) -> bool {
        session_status_wire(*self) == session_status_wire(*other)
    }
}

impl Eq for SessionStatus {
}

impl core::hash::Hash for SessionStatus {
    /// Hashes the wire value, so that values equal by their wire value hash alike.
    fn hash<H: core::hash::Hasher>(&self, state: &mut H) {
        hash_str(self.as_str(), state);
    }
}

impl Validate for SessionStatus {
    open spec fn violations(&self) -> Seq<ViolationView> {
        match *self {
            SessionStatus::Custom(value) => closed_enum_value_violations("SessionStatus"@, value@),
            _ => Seq::empty(),
        }
    }

    fn validate_in(&self, v: &mut Validator)
        ensures
            match *self {
                SessionStatus::Custom(value) => final(v)@ == old(v)@ + open_enum_value_violations(
                    "SessionStatus"@,
                    value@,
                ) + seq![
                    (
                        Seq::<char>::empty(),
                        ViolationCode::Inconsistent,
                        closed_enum_message("SessionStatus"@, value@),
                    ),
                ],
                _ => final(v)@ == old(v)@,
            },
    {
        let ghost start = v@;
        match self {
            SessionStatus::Custom(value) => validate_closed_enum_value("SessionStatus", value.as_str(), v),
            _ => {},
        }
        assert(v@ =~= start + self.violations());
    }
}

impl SessionStatus {
    /// Whether the session can still change: it can unless it is completed or invalid, so an
    /// active or pending session (or one in a status this version does not define) can.
    pub fn is_terminal(&self) -> (r: bool)
        ensures
            r == !(*self is Completed || *self is Invalid),
    {
        match self {
            SessionStatus::Completed | SessionStatus::Invalid => false,
            _ => true,
        }
    }
}

} // verus!
