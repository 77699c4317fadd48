//! The OCPI response envelope, and the error type that maps onto it.

use vstd::prelude::*;

use crate::strings::push_str;
use crate::types::datetime::DateTime;
use crate::types::validate::Violations;

use super::status::{StatusClass, StatusCode, class_of, description_of};

verus! {

/// The JSON object every OCPI response body is: `data`, `status_code`, `status_message` and
/// `timestamp`.
///
/// `data` absent and `data: null` both mean `None`.
#[derive(Clone, Debug)]
pub struct OcpiResponse<T> {
    /// The response data, when the request succeeded and the endpoint documents a payload.
    pub data: Option<T>,
    /// How the request was handled.
    pub status_code: StatusCode,
    /// An optional status message which may help when debugging.
    pub status_message: Option<String>,
    /// The time this message was generated.
    pub timestamp: DateTime,
}

/// Everything that can go wrong on an OCPI request, from either side of the wire.
#[derive(Debug)]
#[non_exhaustive]
pub enum OcpiError {
    /// The peer answered with a non-success OCPI status code.
    Remote {
        /// The code the peer sent.
        status_code: StatusCode,
        /// The message the peer sent, if any.
        status_message: Option<String>,
    },
    /// A successful response did not carry the payload the endpoint documents.
    MissingData {
        /// The code the peer sent.
        status_code: StatusCode,
    },
    /// The request body was not valid JSON, so it never reached the OCPI layer.
    MalformedJson(String),
    /// The body was valid JSON but did not fit the OCPI object it was supposed to be.
    Decode {
        /// JSON path to the value that did not decode.
        path: String,
        /// What went wrong there.
        message: String,
    },
    /// A decoded object broke rules of the specification.
    Invalid(Violations),
    /// No credentials token, or one that matches no known party.
    Unauthorized(String),
    /// `CREDENTIALS_TOKEN_A` was used on a module other than `credentials` or `versions`.
    TokenAOutOfScope,
    /// A GET addressed a resource that does not exist.
    NotFound(String),
    /// The HTTP method is not allowed in the current registration state.
    MethodNotAllowed(String),
    /// The transport failed: connection refused, TLS failure, non-JSON body.
    Transport(String),
    /// The peer did not answer within the configured timeout.
    Timeout(String),
    /// A hub was asked to route a request whose headers and method describe no scenario the
    /// specification defines.
    NotRoutable(String),
    /// This build cannot carry a document between the two OCPI versions involved.
    Unsupported(String),
    /// A URL was refused by the configured `UrlPolicy`.
    UrlRefused {
        /// The URL that was refused.
        url: String,
        /// Why it was refused.
        reason: String,
    },
}

/// The OCPI status code an error is reported as.
pub open spec fn error_status(e: &OcpiError) -> int {
    match e {
        OcpiError::Remote { status_code, .. } => status_code.code(),
        OcpiError::MissingData { status_code } => status_code.code(),
        OcpiError::MalformedJson(_) => 2001,
        OcpiError::Decode { .. } => 2001,
        OcpiError::Invalid(_) => 2001,
        OcpiError::NotRoutable(_) => 2001,
        OcpiError::Unauthorized(_) => 2000,
        OcpiError::TokenAOutOfScope => 2000,
        OcpiError::NotFound(_) => 2000,
        OcpiError::MethodNotAllowed(_) => 2000,
        OcpiError::Transport(_) => 3000,
        OcpiError::Timeout(_) => 3000,
        OcpiError::UrlRefused { .. } => 3000,
        OcpiError::Unsupported(_) => 3000,
    }
}

/// The HTTP status an error is answered with: only the five situations the specification names
/// get an HTTP error; everything that reached the OCPI layer is `200`.
pub open spec fn error_http_status(e: &OcpiError) -> int {
    match e {
        OcpiError::MalformedJson(_) => 400,
        OcpiError::Unauthorized(_) => 401,
        OcpiError::TokenAOutOfScope => 401,
        OcpiError::NotFound(_) => 404,
        OcpiError::MethodNotAllowed(_) => 405,
        _ => 200,
    }
}

/// Whether retrying the same request could plausibly succeed.
pub open spec fn error_is_transient(e: &OcpiError) -> bool {
    match e {
        OcpiError::Transport(_) => true,
        OcpiError::Timeout(_) => true,
        OcpiError::Remote { status_code, .. } => class_of(status_code.code())
            == StatusClass::ServerError || class_of(status_code.code()) == StatusClass::HubError,
        _ => false,
    }
}

/// A status code as `Display` writes it: the number, and the description in parentheses when
/// the specification gives one.
pub open spec fn status_text(code: int) -> Seq<char> {
    match description_of(code) {
        Some(d) => crate::strings::dec_digits(code as nat) + " ("@ + d + ")"@,
        None => crate::strings::dec_digits(code as nat),
    }
}

/// The message an error carries.
pub open spec fn error_text(e: &OcpiError) -> Seq<char> {
    match e {
        OcpiError::Remote { status_code, status_message } => "peer returned OCPI status "@
            + status_text(status_code.code()) + match status_message {
            Some(m) => ": "@ + m@,
            None => Seq::empty(),
        },
        OcpiError::MissingData { status_code } => "peer returned OCPI status "@ + status_text(
            status_code.code(),
        ) + " but no data"@,
        OcpiError::MalformedJson(m) => "malformed JSON: "@ + m@,
        OcpiError::Decode { path, message } => "cannot decode "@ + path@ + ": "@ + message@,
        OcpiError::Invalid(v) => "object does not conform to the specification: "@
            + crate::types::validate::violations_text(v@),
        OcpiError::Unauthorized(m) => "unauthorized: "@ + m@,
        OcpiError::TokenAOutOfScope =>
            "CREDENTIALS_TOKEN_A may only be used on the credentials and versions modules"@,
        OcpiError::NotFound(m) => "not found: "@ + m@,
        OcpiError::MethodNotAllowed(m) => "method not allowed: "@ + m@,
        OcpiError::Transport(m) => "transport error: "@ + m@,
        OcpiError::Timeout(m) => "timed out: "@ + m@,
        OcpiError::NotRoutable(m) => "cannot route this request: "@ + m@,
        OcpiError::Unsupported(m) => "not supported by this build: "@ + m@,
        OcpiError::UrlRefused { url, reason } => "refused to call "@ + url@ + ": "@ + reason@,
    }
}

impl OcpiError {
    /// The OCPI status code this error should be reported as.
    pub fn status_code(&self) -> (c: StatusCode)
        ensures
            c.code() == error_status(self),
    {
        match self {
            OcpiError::Remote { status_code, .. } => *status_code,
            OcpiError::MissingData { status_code } => *status_code,
            OcpiError::MalformedJson(_) => StatusCode::invalid_parameters(),
            OcpiError::Decode { .. } => StatusCode::invalid_parameters(),
            OcpiError::Invalid(_) => StatusCode::invalid_parameters(),
            OcpiError::NotRoutable(_) => StatusCode::invalid_parameters(),
            OcpiError::Unauthorized(_) => StatusCode::client_error(),
            OcpiError::TokenAOutOfScope => StatusCode::client_error(),
            OcpiError::NotFound(_) => StatusCode::client_error(),
            OcpiError::MethodNotAllowed(_) => StatusCode::client_error(),
            OcpiError::Transport(_) => StatusCode::server_error(),
            OcpiError::Timeout(_) => StatusCode::server_error(),
            OcpiError::UrlRefused { .. } => StatusCode::server_error(),
            OcpiError::Unsupported(_) => StatusCode::server_error(),
        }
    }

    /// The HTTP status code this error should be answered with.
    pub fn http_status(&self) -> (r: u16)
        ensures
            r == error_http_status(self),
    {
        match self {
            OcpiError::MalformedJson(_) => 400,
            OcpiError::Unauthorized(_) => 401,
            OcpiError::TokenAOutOfScope => 401,
            OcpiError::NotFound(_) => 404,
            OcpiError::MethodNotAllowed(_) => 405,
            _ => 200,
        }
    }

    /// Whether retrying the same request could plausibly succeed: a transport failure, a
    /// timeout, or a server or hub error from the peer. Only ever consulted for GETs: the
    /// specification forbids retrying a write.
    pub fn is_transient(&self) -> (r: bool)
        ensures
            r == error_is_transient(self),
    {
        match self {
            OcpiError::Transport(_) => true,
            OcpiError::Timeout(_) => true,
            OcpiError::Remote { status_code, .. } => match status_code.class() {
                StatusClass::ServerError => true,
                StatusClass::HubError => true,
                _ => false,
            },
            _ => false,
        }
    }

    /// The error's message, as `Display` writes it.
    pub fn to_string(&self) -> (s: String)
        ensures
            s@ == error_text(self),
    {
        let mut s = String::new();
        match self {
            OcpiError::Remote { status_code, status_message } => {
                push_str(&mut s, "peer returned OCPI status ");
                let code = status_code.to_string();
                push_str(&mut s, code.as_str());
                match status_message {
                    Some(m) => {
                        push_str(&mut s, ": ");
                        push_str(&mut s, m.as_str());
                    },
                    None => {},
                }
            },
            OcpiError::MissingData { status_code } => {
                push_str(&mut s, "peer returned OCPI status ");
                let code = status_code.to_string();
                push_str(&mut s, code.as_str());
                push_str(&mut s, " but no data");
            },
            OcpiError::MalformedJson(m) => {
                push_str(&mut s, "malformed JSON: ");
                push_str(&mut s, m.as_str());
            },
            OcpiError::Decode { path, message } => {
                push_str(&mut s, "cannot decode ");
                push_str(&mut s, path.as_str());
                push_str(&mut s, ": ");
                push_str(&mut s, message.as_str());
            },
            OcpiError::Invalid(v) => {
                push_str(&mut s, "object does not conform to the specification: ");
                let t = v.to_string();
                push_str(&mut s, t.as_str());
            },
            OcpiError::Unauthorized(m) => {
                push_str(&mut s, "unauthorized: ");
                push_str(&mut s, m.as_str());
            },
            OcpiError::TokenAOutOfScope => {
                push_str(
                    &mut s,
                    "CREDENTIALS_TOKEN_A may only be used on the credentials and versions modules",
                );
            },
            OcpiError::NotFound(m) => {
                push_str(&mut s, "not found: ");
                push_str(&mut s, m.as_str());
            },
            OcpiError::MethodNotAllowed(m) => {
                push_str(&mut s, "method not allowed: ");
                push_str(&mut s, m.as_str());
            },
            OcpiError::Transport(m) => {
                push_str(&mut s, "transport error: ");
                push_str(&mut s, m.as_str());
            },
            OcpiError::Timeout(m) => {
                push_str(&mut s, "timed out: ");
                push_str(&mut s, m.as_str());
            },
            OcpiError::NotRoutable(m) => {
                push_str(&mut s, "cannot route this request: ");
                push_str(&mut s, m.as_str());
            },
            OcpiError::Unsupported(m) => {
                push_str(&mut s, "not supported by this build: ");
                push_str(&mut s, m.as_str());
            },
            OcpiError::UrlRefused { url, reason } => {
                push_str(&mut s, "refused to call ");
                push_str(&mut s, url.as_str());
                push_str(&mut s, ": ");
                push_str(&mut s, reason.as_str());
            },
        }
        s
    }

    /// This error as the envelope a server sends back: no data, the error's status code, its
    /// message, timestamped now.
    pub fn to_response<T>(&self) -> (r: OcpiResponse<T>)
        ensures
            r.data is None,
            r.status_code.code() == error_status(self),
            r.status_message matches Some(m) && m@ == error_text(self),
            r.timestamp.wf(),
    {
        OcpiResponse::error(self.status_code(), self.to_string())
    }
}

impl<T> OcpiResponse<T> {
    /// A `1000 Generic success` response carrying `data`, timestamped now.
    pub fn success(data: T) -> (r: Self)
        ensures
            r.data == Some(data),
            r.status_code.code() == 1000,
            r.status_message is None,
            r.timestamp.wf(),
    {
        OcpiResponse {
            data: Some(data),
            status_code: StatusCode::success(),
            status_message: None,
            timestamp: DateTime::now(),
        }
    }

    /// Applies `f` to the payload, keeping the envelope.
    pub fn map<U, F: FnOnce(T) -> U>(self, f: F) -> (r: OcpiResponse<U>)
        requires
            self.data matches Some(d) ==> f.requires((d,)),
        ensures
            match self.data {
                Some(d) => r.data matches Some(u) && f.ensures((d,), u),
                None => r.data is None,
            },
            r.status_code == self.status_code,
            r.status_message == self.status_message,
            r.timestamp == self.timestamp,
    {
        let data = match self.data {
            Some(d) => Some(f(d)),
            None => None,
        };
        OcpiResponse {
            data,
            status_code: self.status_code,
            status_message: self.status_message,
            timestamp: self.timestamp,
        }
    }

    /// A `1000 Generic success` response with no payload, timestamped now: the shape the
    /// specification advises for a PUT or PATCH whose response body it does not specify.
    pub fn success_empty() -> (r: Self)
        ensures
            r.data is None,
            r.status_code.code() == 1000,
            r.status_message is None,
            r.timestamp.wf(),
    {
        OcpiResponse {
            data: None,
            status_code: StatusCode::success(),
            status_message: None,
            timestamp: DateTime::now(),
        }
    }

    /// An error response with the given code and message, timestamped now.
    pub fn error(status_code: StatusCode, status_message: String) -> (r: Self)
        ensures
            r.data is None,
            r.status_code == status_code,
            r.status_message == Some(status_message),
            r.timestamp.wf(),
    {
        OcpiResponse { data: None, status_code, status_message: Some(status_message), timestamp: DateTime::now() }
    }

    /// Whether `status_code` is in the success range.
    pub fn is_success(&self) -> (r: bool)
        ensures
            r == (class_of(self.status_code.code()) == StatusClass::Success),
    {
        self.status_code.is_success()
    }

    /// The payload, or the error the peer reported: `Remote` when the status code is not in the
    /// `1xxx` range, `MissingData` when a successful response carried no payload.
    pub fn into_result(self) -> (r: Result<T, OcpiError>)
        ensures
            class_of(self.status_code.code()) != StatusClass::Success ==> (r matches Err(
                OcpiError::Remote { status_code, status_message },
            ) && status_code == self.status_code && status_message == self.status_message),
            class_of(self.status_code.code()) == StatusClass::Success ==> match self.data {
                Some(d) => r == Ok::<T, OcpiError>(d),
                None => r matches Err(OcpiError::MissingData { status_code }) && status_code
                    == self.status_code,
            },
    {
        if !self.is_success() {
            return Err(
                OcpiError::Remote {
                    status_code: self.status_code,
                    status_message: self.status_message,
                },
            );
        }
        match self.data {
            Some(d) => Ok(d),
            None => Err(OcpiError::MissingData { status_code: self.status_code }),
        }
    }
}

impl<T> OcpiResponse<Vec<T>> {
    /// The payload of a list endpoint, treating an absent `data` as an empty list; `Remote` when
    /// the status code is not in the `1xxx` range.
    pub fn into_list(self) -> (r: Result<Vec<T>, OcpiError>)
        ensures
            class_of(self.status_code.code()) != StatusClass::Success ==> (r matches Err(
                OcpiError::Remote { status_code, status_message },
            ) && status_code == self.status_code && status_message == self.status_message),
            class_of(self.status_code.code()) == StatusClass::Success ==> (r matches Ok(v) && v@
                == match self.data {
                Some(d) => d@,
                None => Seq::<T>::empty(),
            }),
    {
        if !self.is_success() {
            return Err(
                OcpiError::Remote {
                    status_code: self.status_code,
                    status_message: self.status_message,
                },
            );
        }
        match self.data {
            Some(d) => Ok(d),
            None => Ok(Vec::new()),
        }
    }
}


/// A peer's error is worth retrying exactly when its code is a server or hub error, that is when
/// its thousands digit is 3 or 4; a success or client-error code is not.
pub proof fn lemma_remote_error_transient_by_thousands_digit(status_code: StatusCode, status_message: Option<String>)
    ensures
        error_is_transient(&OcpiError::Remote { status_code, status_message }) <==> (status_code.code() / 1000 == 3
            || status_code.code() / 1000 == 4),
{
    crate::transport::status::lemma_class_is_the_thousands_digit(status_code.code());
}

} // verus!
