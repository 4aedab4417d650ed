//! Errors of the relay client library.

use vstd::prelude::*;

use crate::text::{decimal, push_decimal, push_str, string_of};

verus! {

/// Errors returned by the Azure Relay Hybrid Connections client library.
#[derive(Debug)]
pub enum RelayError {
    /// A general relay communication error.
    Communication { message: String },
    /// Authorization failed (bad SAS key, expired token, etc.).
    AuthorizationFailed(String),
    /// The specified Hybrid Connection endpoint does not exist.
    EndpointNotFound(String),
    /// The connection string is invalid or missing required fields.
    InvalidConnectionString(String),
    /// The operation timed out.
    Timeout(std::time::Duration),
    /// Invalid argument provided.
    InvalidArgument { name: String, message: String },
    /// I/O error.
    Io(std::io::Error),
}

impl RelayError {
    /// An `InvalidArgument` error for the named argument.
    pub fn invalid_argument(name: &str, message: &str) -> (e: RelayError)
        ensures
            e matches RelayError::InvalidArgument { name: n, message: m } && n@ == name@ && m@
                == message@,
    {
        RelayError::InvalidArgument { name: name.to_owned(), message: message.to_owned() }
    }

    /// A `Communication` error with the given message.
    pub fn communication(message: &str) -> (e: RelayError)
        ensures
            e matches RelayError::Communication { message: m } && m@ == message@,
    {
        RelayError::Communication { message: message.to_owned() }
    }
}

/// The text `Debug` writes for a `Duration` (such as `5s` or `1.5s`).
pub uninterp spec fn duration_debug_text(d: std::time::Duration) -> Seq<char>;

/// `Debug` of a `Duration`, as `format!("{:?}")` writes it.
#[verifier::external_body]
fn duration_debug(d: &std::time::Duration) -> (r: String)
    ensures
        r@ == duration_debug_text(*d),
{
    format!("{:?}", d)
}

/// The message an I/O error carries when it was made from a message by
/// `io::Error::new`, which is what it displays; `None` for any other I/O
/// error (an operating-system error, whose text the platform gives).
pub uninterp spec fn io_error_message(e: std::io::Error) -> Option<Seq<char>>;

/// Whether an I/O error's kind (`io::Error::kind`) is `InvalidInput`.
pub uninterp spec fn io_error_invalid_input(e: std::io::Error) -> bool;

/// `Display` of an I/O error, as `to_string` writes it: for an error
/// made from a message, that message. Nothing is said of the text of
/// other errors, which the platform gives.
#[verifier::external_body]
pub(crate) fn io_error_text(e: &std::io::Error) -> (r: String)
    ensures
        io_error_message(*e) matches Some(m) ==> r@ == m,
{
    e.to_string()
}

/// `io::Error::new(ErrorKind::InvalidInput, message)`: an error of kind
/// `InvalidInput` made from the message.
#[verifier::external_body]
pub(crate) fn invalid_input_error(message: String) -> (e: std::io::Error)
    ensures
        io_error_invalid_input(e),
        io_error_message(e) == Some(message@),
{
    std::io::Error::new(std::io::ErrorKind::InvalidInput, message)
}

/// The message of an error: the variant's words, then its text; a timeout
/// gives the duration's `Debug` text, an I/O error made from a message
/// that message. `None` for an I/O error whose text the platform gives.
pub open spec fn relay_message(e: RelayError) -> Option<Seq<char>> {
    match e {
        RelayError::Communication { message } => Some("Relay communication error: "@ + message@),
        RelayError::AuthorizationFailed(m) => Some("Authorization failed: "@ + m@),
        RelayError::EndpointNotFound(m) => Some("Endpoint not found: "@ + m@),
        RelayError::InvalidConnectionString(m) => Some("Invalid connection string: "@ + m@),
        RelayError::Timeout(d) => Some("Operation timed out after "@ + duration_debug_text(d)),
        RelayError::InvalidArgument { name, message } => Some(
            "Invalid argument '"@ + name@ + "': "@ + message@,
        ),
        RelayError::Io(e) => io_error_message(e),
    }
}

impl RelayError {
    /// The error's message: for a timeout `Operation timed out after` and
    /// the duration's `Debug` text, for an I/O error that error's own text.
    pub fn message(&self) -> (r: String)
        ensures
            relay_message(*self) matches Some(m) ==> r@ == m,
    {
        let mut t: Vec<char> = Vec::new();
        match self {
            RelayError::Communication { message } => {
                push_str(&mut t, "Relay communication error: ");
                push_str(&mut t, message.as_str());
            },
            RelayError::AuthorizationFailed(m) => {
                push_str(&mut t, "Authorization failed: ");
                push_str(&mut t, m.as_str());
            },
            RelayError::EndpointNotFound(m) => {
                push_str(&mut t, "Endpoint not found: ");
                push_str(&mut t, m.as_str());
            },
            RelayError::InvalidConnectionString(m) => {
                push_str(&mut t, "Invalid connection string: ");
                push_str(&mut t, m.as_str());
            },
            RelayError::Timeout(d) => {
                push_str(&mut t, "Operation timed out after ");
                let dt = duration_debug(d);
                push_str(&mut t, dt.as_str());
            },
            RelayError::InvalidArgument { name, message } => {
                push_str(&mut t, "Invalid argument '");
                push_str(&mut t, name.as_str());
                push_str(&mut t, "': ");
                push_str(&mut t, message.as_str());
            },
            RelayError::Io(e) => {
                let et = io_error_text(e);
                return et;
            },
        }
        string_of(t.as_slice())
    }
}

impl From<std::io::Error> for RelayError {
    fn from(e: std::io::Error) -> (r: RelayError) {
        RelayError::Io(e)
    }
}

impl vstd::std_specs::convert::FromSpecImpl<std::io::Error> for RelayError {
    open spec fn obeys_from_spec() -> bool {
        true
    }

    open spec fn from_spec(e: std::io::Error) -> RelayError {
        RelayError::Io(e)
    }
}

/// `HTTP {status}: {body}`.
pub open spec fn http_status_text(status: nat, body: Seq<char>) -> Seq<char> {
    "HTTP "@ + decimal(status) + ": "@ + body
}

/// The error for a refused WebSocket upgrade: 401 and 403 are
/// authorization failures, 404 an unknown endpoint, anything else a
/// communication error; each carries `HTTP {status}: {body}`.
pub open spec fn upgrade_refusal_spec(status: nat, body: Seq<char>, e: RelayError) -> bool {
    let text = http_status_text(status, body);
    if status == 401 || status == 403 {
        e matches RelayError::AuthorizationFailed(m) && m@ == text
    } else if status == 404 {
        e matches RelayError::EndpointNotFound(m) && m@ == text
    } else {
        e matches RelayError::Communication { message: m } && m@ == text
    }
}

/// The error for a WebSocket upgrade that the service answered with an
/// HTTP status.
pub fn upgrade_refusal(status: u16, body: &str) -> (e: RelayError)
    ensures
        upgrade_refusal_spec(status as nat, body@, e),
{
    let mut t: Vec<char> = Vec::new();
    push_str(&mut t, "HTTP ");
    push_decimal(&mut t, status as u64);
    push_str(&mut t, ": ");
    push_str(&mut t, body);
    let text = string_of(t.as_slice());
    assert(text@ =~= http_status_text(status as nat, body@));
    if status == 401 || status == 403 {
        RelayError::AuthorizationFailed(text)
    } else if status == 404 {
        RelayError::EndpointNotFound(text)
    } else {
        RelayError::Communication { message: text }
    }
}

} // verus!
