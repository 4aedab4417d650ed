//! The command line of azbridge, as plain values.

use vstd::prelude::*;

verus! {

/// Azure Relay Bridge - Create TCP/UDP/HTTP tunnels via Azure Relay.
#[derive(Debug)]
pub struct Cli {
    /// Configuration file to use.
    pub config_file: Option<String>,
    /// Relay endpoint base URI (sb://{namespace}.servicebus.windows.net/).
    pub endpoint_uri: Option<String>,
    /// Azure Relay connection string.
    pub connection_string: Option<String>,
    /// Shared access policy name.
    pub shared_access_key_name: Option<String>,
    /// Shared access policy key.
    pub shared_access_key: Option<String>,
    /// Shared access signature token.
    pub signature: Option<String>,
    /// Local forward expressions: [bind_address:]port[/port_name]:relay_name
    pub local_forward: Vec<String>,
    /// Remote forward expressions: relay_name:[port_name/][host:]port
    pub remote_forward: Vec<String>,
    /// Legacy remote forward expressions (same as -T with different host:port order).
    pub remote_forward_legacy: Vec<String>,
    /// Remote HTTP forward: relay_name:{http|https}/[host][/path]:port
    pub remote_http_forward: Vec<String>,
    /// Log file path (default: console).
    pub log_file: Option<String>,
    /// No log output to stdout/stderr.
    pub quiet: bool,
    /// Verbose log output. Use multiple times for more detail (-vvv).
    pub verbose: u8,
    /// Allow remote hosts to connect to local listeners.
    pub gateway_ports: bool,
    /// Source address for outbound connections.
    pub bind_address: Option<String>,
    /// Configuration option override (key:value YAML).
    pub option: Vec<String>,
    /// Keep-alive interval in seconds.
    pub keep_alive_interval: Option<u32>,
    /// Windows only: Install as Windows Service. Must run as admin.
    pub svc_install: bool,
    /// Windows only: Uninstall Windows Service. Must run as admin.
    pub svc_uninstall: bool,
    /// Reserved for background service invocation.
    pub svc: bool,
    /// Launch interactive TUI for config scaffolding, browsing, and running.
    pub tui: bool,
}

/// The texts of a list of strings.
pub open spec fn texts(v: Seq<String>) -> Seq<Seq<char>> {
    v.map_values(|s: String| s@)
}

} // verus!
