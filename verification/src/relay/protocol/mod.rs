//! The Hybrid Connections protocol: control-channel commands, URI
//! construction and audience normalisation.

pub mod actions;
pub mod commands;
pub mod headers;
pub mod query_params;
pub mod uri;

pub use commands::{
    AcceptCommand, ListenerCommand, ListenerResponse, RemoteEndpoint, RenewTokenCommand,
    RequestCommand, ResponseCommand,
};
pub use uri::{
    build_uri, build_uri_scheme, build_uri_with_token, filter_hybrid_connection_query_params,
    normalize_audience, HC_PATH_PREFIX, RELAY_USER_AGENT_VALUE,
};
