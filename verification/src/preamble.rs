//! The connection preamble exchanged at the start of every relayed
//! connection (byte-compatible with every azbridge peer).
//!
//! Request (sender to listener): `major, minor, mode, name_len, name bytes…`.
//! Response (listener to sender): `major, minor, mode` on success, or
//! `0, 0, error_code` on rejection.

use vstd::prelude::*;
use vstd::utf8::{decode_utf8, encode_utf8, valid_utf8};

use crate::relay::error::{io_error_message, io_error_text};
use crate::text::{decimal, push_decimal, push_str, string_of};

verus! {

/// Protocol version.
pub const MAJOR_VERSION: u8 = 1;
pub const MINOR_VERSION: u8 = 0;

/// Connection mode.
#[derive(Debug, Clone, Copy, PartialEq, Eq, Structural)]
pub enum ConnectionMode {
    /// TCP or Unix socket stream connection (wire code 0).
    Stream,
    /// UDP datagram connection (wire code 1).
    Datagram,
}

/// The wire code of a connection mode.
pub open spec fn mode_code(m: ConnectionMode) -> u8 {
    match m {
        ConnectionMode::Stream => 0,
        ConnectionMode::Datagram => 1,
    }
}

/// The connection mode a wire code stands for, if any.
pub open spec fn mode_of_code(b: u8) -> Option<ConnectionMode> {
    if b == 0 {
        Some(ConnectionMode::Stream)
    } else if b == 1 {
        Some(ConnectionMode::Datagram)
    } else {
        None
    }
}

impl ConnectionMode {
    /// The wire code of this mode.
    pub fn code(self) -> (b: u8)
        ensures
            b == mode_code(self),
    {
        match self {
            ConnectionMode::Stream => 0,
            ConnectionMode::Datagram => 1,
        }
    }

    /// The mode for a wire code, or `InvalidMode` for any other byte.
    pub fn from_code(value: u8) -> (r: Result<ConnectionMode, PreambleError>)
        ensures
            r == mode_result(value),
    {
        if value == 0 {
            Ok(ConnectionMode::Stream)
        } else if value == 1 {
            Ok(ConnectionMode::Datagram)
        } else {
            Err(PreambleError::InvalidMode(value))
        }
    }
}

/// What reading a mode byte gives.
pub open spec fn mode_result(value: u8) -> Result<ConnectionMode, PreambleError> {
    match mode_of_code(value) {
        Some(m) => Ok(m),
        None => Err(PreambleError::InvalidMode(value)),
    }
}

impl TryFrom<u8> for ConnectionMode {
    type Error = PreambleError;

    fn try_from(value: u8) -> (r: Result<Self, Self::Error>) {
        ConnectionMode::from_code(value)
    }
}

impl vstd::std_specs::convert::TryFromSpecImpl<u8> for ConnectionMode {
    open spec fn obeys_try_from_spec() -> bool {
        true
    }

    open spec fn try_from_spec(v: u8) -> Result<Self, Self::Error> {
        mode_result(v)
    }
}

/// Preamble request (sender -> listener).
#[derive(Debug, Clone, PartialEq, Eq)]
pub struct PreambleRequest {
    pub mode: ConnectionMode,
    pub port_name: String,
}

/// Preamble response (listener -> sender).
#[derive(Debug, Clone, PartialEq, Eq)]
pub struct PreambleResponse {
    pub accepted: bool,
    /// Mode echo on success, error code on failure.
    pub mode: u8,
}

/// Errors of the preamble exchange.
#[derive(Debug)]
pub enum PreambleError {
    UnsupportedVersion { major: u8, minor: u8 },
    InvalidMode(u8),
    PortNameTooLong(usize),
    Rejected(u8),
    Io(std::io::Error),
}

/// The message of a preamble error; an I/O failure reads `I/O error: `
/// and the text of the I/O error (known for an error made from a message,
/// `None` where the platform gives the text).
pub open spec fn preamble_message(e: PreambleError) -> Option<Seq<char>> {
    match e {
        PreambleError::UnsupportedVersion { major, minor } => Some(
            "unsupported protocol version "@ + decimal(major as nat) + "."@ + decimal(minor as nat),
        ),
        PreambleError::InvalidMode(m) => Some("invalid connection mode: "@ + decimal(m as nat)),
        PreambleError::PortNameTooLong(n) => Some(
            "port name too long: "@ + decimal(n as nat) + " bytes (max 255)"@,
        ),
        PreambleError::Rejected(c) => Some(
            "connection rejected with error code "@ + decimal(c as nat),
        ),
        PreambleError::Io(e) => match io_error_message(e) {
            Some(m) => Some("I/O error: "@ + m),
            None => None,
        },
    }
}

impl PreambleError {
    /// The error's message; an I/O failure reads `I/O error: ` and the
    /// text of the I/O error.
    pub fn message(&self) -> (r: String)
        ensures
            preamble_message(*self) matches Some(m) ==> r@ == m,
    {
        let mut t: Vec<char> = Vec::new();
        match self {
            PreambleError::UnsupportedVersion { major, minor } => {
                push_str(&mut t, "unsupported protocol version ");
                push_decimal(&mut t, *major as u64);
                push_str(&mut t, ".");
                push_decimal(&mut t, *minor as u64);
            },
            PreambleError::InvalidMode(m) => {
                push_str(&mut t, "invalid connection mode: ");
                push_decimal(&mut t, *m as u64);
            },
            PreambleError::PortNameTooLong(n) => {
                push_str(&mut t, "port name too long: ");
                push_decimal(&mut t, *n as u64);
                push_str(&mut t, " bytes (max 255)");
            },
            PreambleError::Rejected(c) => {
                push_str(&mut t, "connection rejected with error code ");
                push_decimal(&mut t, *c as u64);
            },
            PreambleError::Io(e) => {
                push_str(&mut t, "I/O error: ");
                let et = io_error_text(e);
                push_str(&mut t, et.as_str());
            },
        }
        string_of(t.as_slice())
    }
}

/// The bytes of a request for `mode` and port name `name`.
pub open spec fn request_bytes(mode: ConnectionMode, name: Seq<char>) -> Seq<u8> {
    seq![MAJOR_VERSION, MINOR_VERSION, mode_code(mode), encode_utf8(name).len() as u8]
        + encode_utf8(name)
}

/// Encodes a preamble request; port names longer than 255 bytes are refused.
pub fn encode_request(request: &PreambleRequest) -> (r: Result<Vec<u8>, PreambleError>)
    ensures
        match r {
            Ok(b) => encode_utf8(request.port_name@).len() <= 255 && b@ == request_bytes(
                request.mode,
                request.port_name@,
            ),
            Err(e) => encode_utf8(request.port_name@).len() > 255 && (e
                matches PreambleError::PortNameTooLong(n) && n == encode_utf8(
                request.port_name@,
            ).len()),
        },
{
    let name = request.port_name.as_str().as_bytes();
    if name.len() > 255 {
        return Err(PreambleError::PortNameTooLong(name.len()));
    }
    let mut buf: Vec<u8> = Vec::new();
    buf.push(MAJOR_VERSION);
    buf.push(MINOR_VERSION);
    buf.push(request.mode.code());
    buf.push(name.len() as u8);
    let ghost head = buf@;
    let mut i: usize = 0;
    while i < name.len()
        invariant
            i <= name@.len(),
            buf@ == head + name@.take(i as int),
        decreases name@.len() - i,
    {
        buf.push(name[i]);
        i = i + 1;
        assert(buf@ =~= head + name@.take(i as int));
    }
    assert(name@.take(name@.len() as int) =~= name@);
    assert(buf@ =~= request_bytes(request.mode, request.port_name@));
    Ok(buf)
}

/// What reading the 4-byte request header gives: the mode and the length
/// of the port name that follows.
pub open spec fn header_result(h: Seq<u8>) -> Result<(ConnectionMode, usize), PreambleError> {
    if h[0] != MAJOR_VERSION {
        Err(PreambleError::UnsupportedVersion { major: h[0], minor: h[1] })
    } else {
        match mode_of_code(h[2]) {
            Some(m) => Ok((m, h[3] as usize)),
            None => Err(PreambleError::InvalidMode(h[2])),
        }
    }
}

/// Reads the 4-byte request header.
pub fn decode_request_header(header: &[u8; 4]) -> (r: Result<(ConnectionMode, usize), PreambleError>)
    ensures
        r == header_result(header@),
{
    let major = header[0];
    let minor = header[1];
    if major != MAJOR_VERSION {
        return Err(PreambleError::UnsupportedVersion { major, minor });
    }
    let mode = ConnectionMode::from_code(header[2])?;
    Ok((mode, header[3] as usize))
}

/// `String::from_utf8`: succeeds exactly on valid UTF-8, giving its characters.
#[verifier::external_body]
fn string_from_utf8(bytes: Vec<u8>) -> (r: Option<String>)
    ensures
        r is Some <==> valid_utf8(bytes@),
        r matches Some(s) ==> s@ == decode_utf8(bytes@),
{
    String::from_utf8(bytes).ok()
}

/// Reads the port name that follows the header; bytes that are not UTF-8
/// are reported as `InvalidMode(0)`.
pub fn decode_port_name(bytes: Vec<u8>) -> (r: Result<String, PreambleError>)
    ensures
        match r {
            Ok(s) => valid_utf8(bytes@) && s@ == decode_utf8(bytes@),
            Err(e) => !valid_utf8(bytes@) && (e matches PreambleError::InvalidMode(c) && c == 0),
        },
{
    match string_from_utf8(bytes) {
        Some(s) => Ok(s),
        None => Err(PreambleError::InvalidMode(0)),
    }
}

/// The bytes of a success response.
pub open spec fn response_ok_bytes(mode: ConnectionMode) -> Seq<u8> {
    seq![MAJOR_VERSION, MINOR_VERSION, mode_code(mode)]
}

/// The bytes of a rejection.
pub open spec fn response_err_bytes(error_code: u8) -> Seq<u8> {
    seq![0u8, 0u8, error_code]
}

/// Encodes a success response.
pub fn encode_response_ok(mode: ConnectionMode) -> (b: Vec<u8>)
    ensures
        b@ == response_ok_bytes(mode),
{
    let mut b: Vec<u8> = Vec::new();
    b.push(MAJOR_VERSION);
    b.push(MINOR_VERSION);
    b.push(mode.code());
    assert(b@ =~= response_ok_bytes(mode));
    b
}

/// Encodes a rejection.
pub fn encode_response_err(error_code: u8) -> (b: Vec<u8>)
    ensures
        b@ == response_err_bytes(error_code),
{
    let mut b: Vec<u8> = Vec::new();
    b.push(0);
    b.push(0);
    b.push(error_code);
    assert(b@ =~= response_err_bytes(error_code));
    b
}

/// What reading a 3-byte response gives: a rejection when the major
/// version byte is 0, otherwise acceptance with the echoed mode.
pub open spec fn response_result(b: Seq<u8>) -> Result<PreambleResponse, PreambleError> {
    if b[0] == 0 {
        Err(PreambleError::Rejected(b[2]))
    } else {
        Ok(PreambleResponse { accepted: true, mode: b[2] })
    }
}

/// Reads a 3-byte response.
pub fn decode_response(buf: &[u8; 3]) -> (r: Result<PreambleResponse, PreambleError>)
    ensures
        r == response_result(buf@),
{
    let major = buf[0];
    if major == 0 {
        return Err(PreambleError::Rejected(buf[2]));
    }
    Ok(PreambleResponse { accepted: true, mode: buf[2] })
}

/// A request read back from its encoding gives the request that was
/// written: the header yields the mode and name length, and the name bytes
/// decode to the port name.
pub proof fn law_request_round_trip(mode: ConnectionMode, name: Seq<char>)
    requires
        encode_utf8(name).len() <= 255,
    ensures
        ({
            let b = request_bytes(mode, name);
            &&& b.len() == 4 + encode_utf8(name).len()
            &&& header_result(b.take(4)) == Ok::<(ConnectionMode, usize), PreambleError>(
                (mode, encode_utf8(name).len() as usize),
            )
            &&& b.skip(4) == encode_utf8(name)
            &&& valid_utf8(b.skip(4))
            &&& decode_utf8(b.skip(4)) == name
        }),
{
    broadcast use vstd::utf8::encode_utf8_valid_utf8, vstd::utf8::encode_utf8_decode_utf8;

    let b = request_bytes(mode, name);
    assert(b.skip(4) =~= encode_utf8(name));
    assert(b.take(4)[0] == MAJOR_VERSION);
}

/// A success response reads back as acceptance of the same mode, and a
/// rejection reads back as `Rejected` with the same code.
pub proof fn law_response_round_trip(mode: ConnectionMode, error_code: u8)
    ensures
        response_result(response_ok_bytes(mode)) == Ok::<PreambleResponse, PreambleError>(
            PreambleResponse { accepted: true, mode: mode_code(mode) },
        ),
        response_result(response_err_bytes(error_code)) == Err::<
            PreambleResponse,
            PreambleError,
        >(PreambleError::Rejected(error_code)),
{
}

/// Every mode survives the trip through its wire code.
pub proof fn law_mode_code_round_trip(mode: ConnectionMode, b: u8)
    ensures
        mode_of_code(mode_code(mode)) == Some(mode),
        mode_of_code(b) matches Some(m) ==> mode_code(m) == b,
{
}

} // verus!
