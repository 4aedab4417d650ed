//! The commands exchanged on the listener's control channel.

use std::collections::HashMap;

use vstd::prelude::*;

verus! {

/// Remote endpoint information for a connection.
#[derive(Debug, Clone, PartialEq)]
pub struct RemoteEndpoint {
    pub address: String,
    pub port: u16,
}

/// Accept command sent by the service to the listener when a sender connects.
#[derive(Debug, Clone, PartialEq)]
pub struct AcceptCommand {
    /// The rendezvous WebSocket URL to connect to for accepting the connection.
    pub address: String,
    /// Unique connection identifier (GUID).
    pub id: String,
    /// HTTP headers from the sender's WebSocket upgrade request.
    pub connect_headers: HashMap<String, String>,
    /// The sender's remote endpoint (IP + port).
    pub remote_endpoint: Option<RemoteEndpoint>,
}

/// HTTP request command sent by the service to the listener.
#[derive(Debug, Clone, PartialEq)]
pub struct RequestCommand {
    /// Rendezvous address for large request/response upgrade.
    pub address: String,
    /// Unique request identifier.
    pub id: String,
    /// The HTTP request target (path + query string).
    pub request_target: String,
    /// HTTP method (GET, POST, etc.).
    pub method: String,
    /// HTTP request headers.
    pub request_headers: HashMap<String, String>,
    /// Whether the request has a body (binary frames follow).
    pub body: bool,
    /// The sender's remote endpoint.
    pub remote_endpoint: Option<RemoteEndpoint>,
}

/// HTTP response command sent by the listener back to the service.
#[derive(Debug, Clone, PartialEq)]
pub struct ResponseCommand {
    /// The request ID this response is for.
    pub request_id: String,
    /// HTTP status code.
    pub status_code: u16,
    /// Optional HTTP status description.
    pub status_description: Option<String>,
    /// HTTP response headers.
    pub response_headers: HashMap<String, String>,
    /// Whether the response has a body.
    pub body: bool,
}

/// Token renewal command sent by the listener to the service.
#[derive(Debug, Clone, PartialEq)]
pub struct RenewTokenCommand {
    pub token: String,
}

/// Envelope for commands received by the listener from the service.
/// The JSON has one top-level key: "accept" or "request".
#[derive(Debug, Clone, PartialEq)]
pub enum ListenerCommand {
    Accept(AcceptCommand),
    Request(RequestCommand),
}

/// Envelope for commands sent by the listener to the service.
#[derive(Debug, Clone, PartialEq)]
pub enum ListenerResponse {
    Response(ResponseCommand),
    RenewToken(RenewTokenCommand),
}

} // verus!
