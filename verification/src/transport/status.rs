//! OCPI status codes: the four-digit codes that live inside a `200 OK`.
//!
//! A request that reached the OCPI layer is never answered with an HTTP error: its outcome is one
//! of these codes, in the body.

use vstd::prelude::*;

use crate::strings::{dec_digits, push_decimal, push_str};

verus! {

/// The four status code ranges the specification defines.
#[derive(Clone, Copy, Debug, PartialEq, Eq, Hash, Structural)]
#[non_exhaustive]
pub enum StatusClass {
    /// `1xxx`: the request was handled as documented.
    Success,
    /// `2xxx`: the data sent by the client cannot be processed by the server.
    ClientError,
    /// `3xxx`: the server encountered an internal error.
    ServerError,
    /// `4xxx`: a hub failed to route the message.
    HubError,
    /// A code outside `1000` to `4999`, which the specification does not define.
    Unknown,
}

/// The class of a code, by its range.
pub open spec fn class_of(code: int) -> StatusClass {
    if 1000 <= code <= 1999 {
        StatusClass::Success
    } else if 2000 <= code <= 2999 {
        StatusClass::ClientError
    } else if 3000 <= code <= 3999 {
        StatusClass::ServerError
    } else if 4000 <= code <= 4999 {
        StatusClass::HubError
    } else {
        StatusClass::Unknown
    }
}

/// The description the specification gives for a code, when it defines one.
pub open spec fn description_of(code: int) -> Option<Seq<char>> {
    if code == 1000 {
        Some("Generic success code"@)
    } else if code == 2000 {
        Some("Generic client error"@)
    } else if code == 2001 {
        Some("Invalid or missing parameters"@)
    } else if code == 2002 {
        Some("Not enough information"@)
    } else if code == 2003 {
        Some("Unknown Location"@)
    } else if code == 2004 {
        Some("Unknown Token"@)
    } else if code == 3000 {
        Some("Generic server error"@)
    } else if code == 3001 {
        Some("Unable to use the client's API"@)
    } else if code == 3002 {
        Some("Unsupported version"@)
    } else if code == 3003 {
        Some("No matching endpoints or expected endpoints missing between parties"@)
    } else if code == 4000 {
        Some("Generic error"@)
    } else if code == 4001 {
        Some("Unknown receiver (TO address is unknown)"@)
    } else if code == 4002 {
        Some("Timeout on forwarded request"@)
    } else if code == 4003 {
        Some("Connection problem (receiving party is not connected)"@)
    } else {
        None
    }
}

/// A four-digit OCPI status code.
///
/// A newtype over `u16` rather than an enum: the specification reserves custom ranges (`19xx`,
/// `29xx`, `39xx`, `49xx`) that a party may define values in, and a peer may send a code from a
/// newer version.
#[derive(Clone, Copy, PartialEq, Eq, PartialOrd, Ord, Hash, Debug, Structural)]
pub struct StatusCode(u16);

impl StatusCode {
    /// The raw code.
    pub closed spec fn code(self) -> int {
        self.0 as int
    }

    /// `1000`: generic success code.
    pub fn success() -> (s: StatusCode)
        ensures
            s.code() == 1000,
    {
        StatusCode(1000)
    }

    /// `2000`: generic client error.
    pub fn client_error() -> (s: StatusCode)
        ensures
            s.code() == 2000,
    {
        StatusCode(2000)
    }

    /// `2001`: invalid or missing parameters, such as a missing `last_updated` in a PATCH.
    pub fn invalid_parameters() -> (s: StatusCode)
        ensures
            s.code() == 2001,
    {
        StatusCode(2001)
    }

    /// `2002`: not enough information.
    pub fn not_enough_information() -> (s: StatusCode)
        ensures
            s.code() == 2002,
    {
        StatusCode(2002)
    }

    /// `2003`: unknown Location.
    pub fn unknown_location() -> (s: StatusCode)
        ensures
            s.code() == 2003,
    {
        StatusCode(2003)
    }

    /// `2004`: unknown Token.
    pub fn unknown_token() -> (s: StatusCode)
        ensures
            s.code() == 2004,
    {
        StatusCode(2004)
    }

    /// `3000`: generic server error.
    pub fn server_error() -> (s: StatusCode)
        ensures
            s.code() == 3000,
    {
        StatusCode(3000)
    }

    /// `3001`: unable to use the client's API.
    pub fn unable_to_use_client_api() -> (s: StatusCode)
        ensures
            s.code() == 3001,
    {
        StatusCode(3001)
    }

    /// `3002`: unsupported version.
    pub fn unsupported_version() -> (s: StatusCode)
        ensures
            s.code() == 3002,
    {
        StatusCode(3002)
    }

    /// `3003`: no matching endpoints, or expected endpoints missing between parties.
    pub fn no_matching_endpoints() -> (s: StatusCode)
        ensures
            s.code() == 3003,
    {
        StatusCode(3003)
    }

    /// `4000`: generic hub error.
    pub fn hub_error() -> (s: StatusCode)
        ensures
            s.code() == 4000,
    {
        StatusCode(4000)
    }

    /// `4001`: unknown receiver, the `OCPI-to-*` address is unknown.
    pub fn unknown_receiver() -> (s: StatusCode)
        ensures
            s.code() == 4001,
    {
        StatusCode(4001)
    }

    /// `4002`: timeout on a forwarded request.
    pub fn timeout_on_forwarded_request() -> (s: StatusCode)
        ensures
            s.code() == 4002,
    {
        StatusCode(4002)
    }

    /// `4003`: connection problem, the receiving party is not connected.
    pub fn connection_problem() -> (s: StatusCode)
        ensures
            s.code() == 4003,
    {
        StatusCode(4003)
    }

    /// Wraps a raw code.
    pub fn new(code: u16) -> (s: Self)
        ensures
            s.code() == code,
    {
        StatusCode(code)
    }

    /// The raw code.
    pub fn get(self) -> (r: u16)
        ensures
            r == self.code(),
    {
        self.0
    }

    /// Which of the four ranges this code falls in.
    pub fn class(self) -> (c: StatusClass)
        ensures
            c == class_of(self.code()),
    {
        if 1000 <= self.0 && self.0 <= 1999 {
            StatusClass::Success
        } else if 2000 <= self.0 && self.0 <= 2999 {
            StatusClass::ClientError
        } else if 3000 <= self.0 && self.0 <= 3999 {
            StatusClass::ServerError
        } else if 4000 <= self.0 && self.0 <= 4999 {
            StatusClass::HubError
        } else {
            StatusClass::Unknown
        }
    }

    /// Whether this is a success code, so that `data` carries the documented payload.
    pub fn is_success(self) -> (r: bool)
        ensures
            r == (class_of(self.code()) == StatusClass::Success),
    {
        match self.class() {
            StatusClass::Success => true,
            _ => false,
        }
    }

    /// Whether the code falls in one of the reserved custom sub-ranges (`x900` to `x999`).
    pub fn is_custom(self) -> (r: bool)
        ensures
            r == (class_of(self.code()) != StatusClass::Unknown && self.code() % 1000 >= 900),
    {
        let known = match self.class() {
            StatusClass::Unknown => false,
            _ => true,
        };
        known && self.0 % 1000 >= 900
    }

    /// The description the specification gives for this code, when it defines one.
    pub fn description(self) -> (r: Option<&'static str>)
        ensures
            r is Some <==> description_of(self.code()) is Some,
            r matches Some(d) ==> description_of(self.code()) == Some(d@),
    {
        match self.0 {
            1000 => Some("Generic success code"),
            2000 => Some("Generic client error"),
            2001 => Some("Invalid or missing parameters"),
            2002 => Some("Not enough information"),
            2003 => Some("Unknown Location"),
            2004 => Some("Unknown Token"),
            3000 => Some("Generic server error"),
            3001 => Some("Unable to use the client's API"),
            3002 => Some("Unsupported version"),
            3003 => Some("No matching endpoints or expected endpoints missing between parties"),
            4000 => Some("Generic error"),
            4001 => Some("Unknown receiver (TO address is unknown)"),
            4002 => Some("Timeout on forwarded request"),
            4003 => Some("Connection problem (receiving party is not connected)"),
            _ => None,
        }
    }

    /// The code, followed by the specification's description in parentheses when it has one.
    pub fn to_string(self) -> (s: String)
        ensures
            s@ == match description_of(self.code()) {
                Some(d) => dec_digits(self.code() as nat) + " ("@ + d + ")"@,
                None => dec_digits(self.code() as nat),
            },
    {
        let mut s = String::new();
        push_decimal(&mut s, self.0 as u64);
        match self.description() {
            Some(d) => {
                push_str(&mut s, " (");
                push_str(&mut s, d);
                push_str(&mut s, ")");
            },
            None => {},
        }
        s
    }
}

impl From<u16> for StatusCode {
    fn from(value: u16) -> (s: Self) {
        StatusCode(value)
    }
}

impl vstd::std_specs::convert::FromSpecImpl<u16> for StatusCode {
    open spec fn obeys_from_spec() -> bool {
        true
    }

    closed spec fn from_spec(v: u16) -> Self {
        StatusCode(v)
    }
}

impl StatusClass {
    /// Whether this class means the request succeeded.
    pub fn is_success(self) -> (r: bool)
        ensures
            r == (self == StatusClass::Success),
    {
        match self {
            StatusClass::Success => true,
            _ => false,
        }
    }

    /// Whether the fault lies with the party that sent the request.
    pub fn is_client_fault(self) -> (r: bool)
        ensures
            r == (self == StatusClass::ClientError),
    {
        match self {
            StatusClass::ClientError => true,
            _ => false,
        }
    }

    /// The class's name, as it is displayed.
    pub fn to_string(self) -> (s: &'static str)
        ensures
            s@ == class_text(self),
    {
        match self {
            StatusClass::Success => "success",
            StatusClass::ClientError => "client error",
            StatusClass::ServerError => "server error",
            StatusClass::HubError => "hub error",
            StatusClass::Unknown => "unknown status class",
        }
    }
}

/// The name of a class.
pub open spec fn class_text(c: StatusClass) -> Seq<char> {
    match c {
        StatusClass::Success => "success"@,
        StatusClass::ClientError => "client error"@,
        StatusClass::ServerError => "server error"@,
        StatusClass::HubError => "hub error"@,
        StatusClass::Unknown => "unknown status class"@,
    }
}


/// A code's class is decided by its thousands digit: 1 is success, 2 a client error, 3 a server
/// error and 4 a hub error; a code with any other thousands digit is of no known class.
pub proof fn lemma_class_is_the_thousands_digit(code: int)
    ensures
        code / 1000 == 1 ==> class_of(code) == StatusClass::Success,
        code / 1000 == 2 ==> class_of(code) == StatusClass::ClientError,
        code / 1000 == 3 ==> class_of(code) == StatusClass::ServerError,
        code / 1000 == 4 ==> class_of(code) == StatusClass::HubError,
        !(1 <= code / 1000 <= 4) ==> class_of(code) == StatusClass::Unknown,
{
}

} // verus!
