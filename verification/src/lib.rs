//! Verified core of azbridge: forwarding-expression parsing, configuration
//! validation and merging, the preamble and datagram wire formats, SAS token
//! construction and the small pieces of text logic they rest on.

pub mod text;
pub mod byte_offsets;

pub mod config;
pub mod http_forward;
pub mod logging;
pub mod external;
pub mod preamble;
pub mod udp;
pub mod relay;
pub mod tui;
pub mod socket;
pub mod stream_pump;
pub mod cli;
pub mod config_loader;
pub mod host;
pub mod remote_bridge;
