//! The OCPI 2.1.1 Commands module: the commands and the answers to them.

use vstd::prelude::*;

use crate::strings::{eq_ignore_ascii_case, hash_str, str_eq, str_eq_ignore_case};
use crate::types::open_enum::{
    closed_enum_message, closed_enum_value_violations, open_enum_value_violations, validate_closed_enum_value,
};
use crate::types::validate::{Validate, Validator, ViolationCode, ViolationView};

verus! {

/// The answer to a command request, in OCPI 2.1.1. `TIMEOUT` belongs here because 2.1.1 has no
/// separate result object; the specification declares this enum closed.
#[derive(Clone, Debug)]
#[non_exhaustive]
pub enum CommandResponseType {
    /// The requested command is not supported by this CPO, Charge Point or EVSE.
    NotSupported,
    /// Rejected by the CPO or the Charge Point.
    Rejected,
    /// Accepted.
    Accepted,
    /// No response from the Charge Point in a reasonable time.
    Timeout,
    /// The Session in the requested command is not known.
    UnknownSession,
    /// A value this version of the specification does not define, preserved verbatim.
    Custom(String),
}

/// The wire value of a [`CommandResponseType`].
pub open spec fn command_response_type_wire(v: CommandResponseType) -> Seq<char> {
    match v {
        CommandResponseType::NotSupported => "NOT_SUPPORTED"@,
        CommandResponseType::Rejected => "REJECTED"@,
        CommandResponseType::Accepted => "ACCEPTED"@,
        CommandResponseType::Timeout => "TIMEOUT"@,
        CommandResponseType::UnknownSession => "UNKNOWN_SESSION"@,
        CommandResponseType::Custom(s) => s@,
    }
}

/// The defined value whose wire form is exactly `s`, if there is one.
pub open spec fn command_response_type_known(s: Seq<char>) -> Option<CommandResponseType> {
    if s == "NOT_SUPPORTED"@ {
        Some(CommandResponseType::NotSupported)
    } else if s == "REJECTED"@ {
        Some(CommandResponseType::Rejected)
    } else if s == "ACCEPTED"@ {
        Some(CommandResponseType::Accepted)
    } else if s == "TIMEOUT"@ {
        Some(CommandResponseType::Timeout)
    } else if s == "UNKNOWN_SESSION"@ {
        Some(CommandResponseType::UnknownSession)
    } else {
        None
    }
}

/// The defined value whose wire form equals `s` ignoring ASCII case, if there is one.
pub open spec fn command_response_type_known_ignore_case(s: Seq<char>) -> Option<CommandResponseType> {
    if str_eq_ignore_case(s, "NOT_SUPPORTED"@) {
        Some(CommandResponseType::NotSupported)
    } else if str_eq_ignore_case(s, "REJECTED"@) {
        Some(CommandResponseType::Rejected)
    } else if str_eq_ignore_case(s, "ACCEPTED"@) {
        Some(CommandResponseType::Accepted)
    } else if str_eq_ignore_case(s, "TIMEOUT"@) {
        Some(CommandResponseType::Timeout)
    } else if str_eq_ignore_case(s, "UNKNOWN_SESSION"@) {
        Some(CommandResponseType::UnknownSession)
    } else {
        None
    }
}

impl CommandResponseType {
    /// Every wire value this version of the specification defines, in declaration order.
    pub fn all_known_wire() -> (r: Vec<&'static str>)
        ensures
            r@.map_values(|w: &str| w@) == seq![
                "NOT_SUPPORTED"@,
                "REJECTED"@,
                "ACCEPTED"@,
                "TIMEOUT"@,
                "UNKNOWN_SESSION"@,
            ],
    {
        let mut r = Vec::new();
        r.push("NOT_SUPPORTED");
        r.push("REJECTED");
        r.push("ACCEPTED");
        r.push("TIMEOUT");
        r.push("UNKNOWN_SESSION");
        r
    }

    /// Every value this version of the specification defines, in declaration order.
    pub fn all_known() -> (r: Vec<CommandResponseType>)
        ensures
            r@ == seq![
                CommandResponseType::NotSupported,
                CommandResponseType::Rejected,
                CommandResponseType::Accepted,
                CommandResponseType::Timeout,
                CommandResponseType::UnknownSession,
            ],
    {
        let mut r = Vec::new();
        r.push(CommandResponseType::NotSupported);
        r.push(CommandResponseType::Rejected);
        r.push(CommandResponseType::Accepted);
        r.push(CommandResponseType::Timeout);
        r.push(CommandResponseType::UnknownSession);
        r
    }

    /// The value as it appears on the wire.
    pub fn as_str(&self) -> (s: &str)
        ensures
            s@ == command_response_type_wire(*self),
    {
        match self {
            CommandResponseType::NotSupported => "NOT_SUPPORTED",
            CommandResponseType::Rejected => "REJECTED",
            CommandResponseType::Accepted => "ACCEPTED",
            CommandResponseType::Timeout => "TIMEOUT",
            CommandResponseType::UnknownSession => "UNKNOWN_SESSION",
            CommandResponseType::Custom(v) => v.as_str(),
        }
    }

    /// Whether this is a value the specification defines.
    pub fn is_known(&self) -> (r: bool)
        ensures
            r == !(*self is Custom),
    {
        match self {
            CommandResponseType::Custom(_) => false,
            _ => true,
        }
    }

    /// Parses a wire value exactly; any other text is kept as `Custom`.
    pub fn parse(s: &str) -> (r: Self)
        ensures
            match command_response_type_known(s@) {
                Some(k) => r == k,
                None => r matches CommandResponseType::Custom(x) && x@ == s@,
            },
    {
        if str_eq(s, "NOT_SUPPORTED") {
            return CommandResponseType::NotSupported;
        }
        if str_eq(s, "REJECTED") {
            return CommandResponseType::Rejected;
        }
        if str_eq(s, "ACCEPTED") {
            return CommandResponseType::Accepted;
        }
        if str_eq(s, "TIMEOUT") {
            return CommandResponseType::Timeout;
        }
        if str_eq(s, "UNKNOWN_SESSION") {
            return CommandResponseType::UnknownSession;
        }
        CommandResponseType::Custom(String::from_str(s))
    }

    /// Parses a wire value ignoring ASCII case for the defined values, for peers that get the
    /// case wrong; `parse` is strict.
    pub fn from_str_ignore_case(s: &str) -> (r: Self)
        ensures
            match command_response_type_known_ignore_case(s@) {
                Some(k) => r == k,
                None => r matches CommandResponseType::Custom(x) && x@ == s@,
            },
    {
        if eq_ignore_ascii_case(s, "NOT_SUPPORTED") {
            return CommandResponseType::NotSupported;
        }
        if eq_ignore_ascii_case(s, "REJECTED") {
            return CommandResponseType::Rejected;
        }
        if eq_ignore_ascii_case(s, "ACCEPTED") {
            return CommandResponseType::Accepted;
        }
        if eq_ignore_ascii_case(s, "TIMEOUT") {
            return CommandResponseType::Timeout;
        }
        if eq_ignore_ascii_case(s, "UNKNOWN_SESSION") {
            return CommandResponseType::UnknownSession;
        }
        CommandResponseType::Custom(String::from_str(s))
    }

    /// The wire value, as `Display` writes it.
    pub fn to_string(&self) -> (s: String)
        ensures
            s@ == command_response_type_wire(*self),
    {
        String::from_str(self.as_str())
    }
}

impl core::str::FromStr for CommandResponseType {
    type Err = core::convert::Infallible;

    fn from_str(s: &str) -> (res: Result<Self, Self::Err>)
        ensures
            res matches Ok(r) && match command_response_type_known(s@) {
                Some(k) => r == k,
                None => r matches CommandResponseType::Custom(x) && x@ == s@,
            },
    {
        Ok(Self::parse(s))
    }
}

impl From<&str> for CommandResponseType {
    fn from(s: &str) -> Self {
        Self::parse(s)
    }
}

impl vstd::std_specs::convert::FromSpecImpl<&str> for CommandResponseType {
    open spec fn obeys_from_spec() -> bool {
        false
    }

    open spec fn from_spec(v: &str) -> Self {
        match command_response_type_known(v@) {
            Some(k) => k,
            None => vstd::pervasive::arbitrary(),
        }
    }
}

impl PartialEq for CommandResponseType {
    fn eq(&self, other: &Self) -> (r: bool) {
        str_eq(self.as_str(), other.as_str())
    }
}

impl vstd::std_specs::cmp::PartialEqSpecImpl for CommandResponseType {
    open spec fn obeys_eq_spec() -> bool {
        true
    }

    open spec fn eq_spec(&self, other: &Self) -> bool {
        command_response_type_wire(*self) == command_response_type_wire(*other)
    }
}

impl Eq for CommandResponseType {
}

impl core::hash::Hash for CommandResponseType {
    /// Hashes the wire value, so that values equal by their wire value hash alike.
    fn hash<H: core::hash::Hasher>(&self, state: &mut H) {
        hash_str(self.as_str(), state);
    }
}

impl Validate for CommandResponseType {
    open spec fn violations(&self) -> Seq<ViolationView> {
        match *self {
            CommandResponseType::Custom(value) => closed_enum_value_violations("CommandResponseType"@, value@),
            _ => Seq::empty(),
        }
    }

    fn validate_in(&self, v: &mut Validator)
        ensures
            match *self {
                CommandResponseType::Custom(value) => final(v)@ == old(v)@ + open_enum_value_violations(
                    "CommandResponseType"@,
                    value@,
                ) + seq![
                    (
                        Seq::<char>::empty(),
                        ViolationCode::Inconsistent,
                        closed_enum_message("CommandResponseType"@, value@),
                    ),
                ],
                _ => final(v)@ == old(v)@,
            },
    {
        let ghost start = v@;
        match self {
            CommandResponseType::Custom(value) => validate_closed_enum_value("CommandResponseType", value.as_str(), v),
            _ => {},
        }
        assert(v@ =~= start + self.violations());
    }
}

/// The command being requested, in OCPI 2.1.1. `CANCEL_RESERVATION` arrived in OCPI 2.2; the
/// specification declares this enum closed.
#[derive(Clone, Debug)]
#[non_exhaustive]
pub enum CommandType {
    /// Reserve a (specific) EVSE for a Token, starting now.
    ReserveNow,
    /// Start a transaction on the given EVSE.
    StartSession,
    /// Stop an ongoing session.
    StopSession,
    /// Unlock the connector. Help desk operators only.
    UnlockConnector,
    /// A value this version of the specification does not define, preserved verbatim.
    Custom(String),
}

/// The wire value of a [`CommandType`].
pub open spec fn command_type_wire(v: CommandType) -> Seq<char> {
    match v {
        CommandType::ReserveNow => "RESERVE_NOW"@,
        CommandType::StartSession => "START_SESSION"@,
        CommandType::StopSession => "STOP_SESSION"@,
        CommandType::UnlockConnector => "UNLOCK_CONNECTOR"@,
        CommandType::Custom(s) => s@,
    }
}

/// The defined value whose wire form is exactly `s`, if there is one.
pub open spec fn command_type_known(s: Seq<char>) -> Option<CommandType> {
    if s == "RESERVE_NOW"@ {
        Some(CommandType::ReserveNow)
    } else if s == "START_SESSION"@ {
        Some(CommandType::StartSession)
    } else if s == "STOP_SESSION"@ {
        Some(CommandType::StopSession)
    } else if s == "UNLOCK_CONNECTOR"@ {
        Some(CommandType::UnlockConnector)
    } else {
        None
    }
}

/// The defined value whose wire form equals `s` ignoring ASCII case, if there is one.
pub open spec fn command_type_known_ignore_case(s: Seq<char>) -> Option<CommandType> {
    if str_eq_ignore_case(s, "RESERVE_NOW"@) {
        Some(CommandType::ReserveNow)
    } else if str_eq_ignore_case(s, "START_SESSION"@) {
        Some(CommandType::StartSession)
    } else if str_eq_ignore_case(s, "STOP_SESSION"@) {
        Some(CommandType::StopSession)
    } else if str_eq_ignore_case(s, "UNLOCK_CONNECTOR"@) {
        Some(CommandType::UnlockConnector)
    } else {
        None
    }
}

impl CommandType {
    /// Every wire value this version of the specification defines, in declaration order.
    pub fn all_known_wire() -> (r: Vec<&'static str>)
        ensures
            r@.map_values(|w: &str| w@) == seq![
                "RESERVE_NOW"@,
                "START_SESSION"@,
                "STOP_SESSION"@,
                "UNLOCK_CONNECTOR"@,
            ],
    {
        let mut r = Vec::new();
        r.push("RESERVE_NOW");
        r.push("START_SESSION");
        r.push("STOP_SESSION");
        r.push("UNLOCK_CONNECTOR");
        r
    }

    /// Every value this version of the specification defines, in declaration order.
    pub fn all_known() -> (r: Vec<CommandType>)
        ensures
            r@ == seq![
                CommandType::ReserveNow,
                CommandType::StartSession,
                CommandType::StopSession,
                CommandType::UnlockConnector,
            ],
    {
        let mut r = Vec::new();
        r.push(CommandType::ReserveNow);
        r.push(CommandType::StartSession);
        r.push(CommandType::StopSession);
        r.push(CommandType::UnlockConnector);
        r
    }

    /// The value as it appears on the wire.
    pub fn as_str(&self) -> (s: &str)
        ensures
            s@ == command_type_wire(*self),
    {
        match self {
            CommandType::ReserveNow => "RESERVE_NOW",
            CommandType::StartSession => "START_SESSION",
            CommandType::StopSession => "STOP_SESSION",
            CommandType::UnlockConnector => "UNLOCK_CONNECTOR",
            CommandType::Custom(v) => v.as_str(),
        }
    }

    /// Whether this is a value the specification defines.
    pub fn is_known(&self) -> (r: bool)
        ensures
            r == !(*self is Custom),
    {
        match self {
            CommandType::Custom(_) => false,
            _ => true,
        }
    }

    /// Parses a wire value exactly; any other text is kept as `Custom`.
    pub fn parse(s: &str) -> (r: Self)
        ensures
            match command_type_known(s@) {
                Some(k) => r == k,
                None => r matches CommandType::Custom(x) && x@ == s@,
            },
    {
        if str_eq(s, "RESERVE_NOW") {
            return CommandType::ReserveNow;
        }
        if str_eq(s, "START_SESSION") {
            return CommandType::StartSession;
        }
        if str_eq(s, "STOP_SESSION") {
            return CommandType::StopSession;
        }
        if str_eq(s, "UNLOCK_CONNECTOR") {
            return CommandType::UnlockConnector;
        }
        CommandType::Custom(String::from_str(s))
    }

    /// Parses a wire value ignoring ASCII case for the defined values, for peers that get the
    /// case wrong; `parse` is strict.
    pub fn from_str_ignore_case(s: &str) -> (r: Self)
        ensures
            match command_type_known_ignore_case(s@) {
                Some(k) => r == k,
                None => r matches CommandType::Custom(x) && x@ == s@,
            },
    {
        if eq_ignore_ascii_case(s, "RESERVE_NOW") {
            return CommandType::ReserveNow;
        }
        if eq_ignore_ascii_case(s, "START_SESSION") {
            return CommandType::StartSession;
        }
        if eq_ignore_ascii_case(s, "STOP_SESSION") {
            return CommandType::StopSession;
        }
        if eq_ignore_ascii_case(s, "UNLOCK_CONNECTOR") {
            return CommandType::UnlockConnector;
        }
        CommandType::Custom(String::from_str(s))
    }

    /// The wire value, as `Display` writes it.
    pub fn to_string(&self) -> (s: String)
        ensures
            s@ == command_type_wire(*self),
    {
        String::from_str(self.as_str())
    }
}

impl core::str::FromStr for CommandType {
    type Err = core::convert::Infallible;

    fn from_str(s: &str) -> (res: Result<Self, Self::Err>)
        ensures
            res matches Ok(r) && match command_type_known(s@) {
                Some(k) => r == k,
                None => r matches CommandType::Custom(x) && x@ == s@,
            },
    {
        Ok(Self::parse(s))
    }
}

impl From<&str> for CommandType {
    fn from(s: &str) -> Self {
        Self::parse(s)
    }
}

impl vstd::std_specs::convert::FromSpecImpl<&str> for CommandType {
    open spec fn obeys_from_spec() -> bool {
        false
    }

    open spec fn from_spec(v: &str) -> Self {
        match command_type_known(v@) {
            Some(k) => k,
            None => vstd::pervasive::arbitrary(),
        }
    }
}

impl PartialEq for CommandType {
    fn eq(&self, other: &Self) -> (r: bool) {
        str_eq(self.as_str(), other.as_str())
    }
}

impl vstd::std_specs::cmp::PartialEqSpecImpl for CommandType {
    open spec fn obeys_eq_spec() -> bool {
        true
    }

    open spec fn eq_spec(&self, other: &Self) -> bool {
        command_type_wire(*self) == command_type_wire(*other)
    }
}

impl Eq for CommandType {
}

impl core::hash::Hash for CommandType {
    /// Hashes the wire value, so that values equal by their wire value hash alike.
    fn hash<H: core::hash::Hasher>(&self, state: &mut H) {
        hash_str(self.as_str(), state);
    }
}

impl Validate for CommandType {
    open spec fn violations(&self) -> Seq<ViolationView> {
        match *self {
            CommandType::Custom(value) => closed_enum_value_violations("CommandType"@, value@),
            _ => Seq::empty(),
        }
    }

    fn validate_in(&self, v: &mut Validator)
        ensures
            match *self {
                CommandType::Custom(value) => final(v)@ == old(v)@ + open_enum_value_violations(
                    "CommandType"@,
                    value@,
                ) + seq![
                    (
                        Seq::<char>::empty(),
                        ViolationCode::Inconsistent,
                        closed_enum_message("CommandType"@, value@),
                    ),
                ],
                _ => final(v)@ == old(v)@,
            },
    {
        let ghost start = v@;
        match self {
            CommandType::Custom(value) => validate_closed_enum_value("CommandType", value.as_str(), v),
            _ => {},
        }
        assert(v@ =~= start + self.violations());
    }
}

} // verus!
