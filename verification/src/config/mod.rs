//! azbridge configuration: the forwarding rules, the root configuration with
//! its validation and layering, and the `-L`/`-T`/`-R`/`-H` expression parsers.

pub mod model;
pub mod parse;
pub mod root;

pub use model::{ConfigError, LocalForward, LocalForwardBinding, RemoteForward, RemoteForwardBinding};
pub use parse::{
    parse_http_binding, parse_local_forward, parse_remote_forward, parse_remote_forward_legacy,
    parse_remote_http_forward,
};
pub use root::Config;
