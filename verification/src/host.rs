//! What a bridge host sets up for a configuration: the connection string of
//! each relay, the defaults it starts with, and for each binding of each
//! forwarding rule the listener or forwarder it becomes.
//!
//! The host performs the setup (name resolution, relay clients, tasks);
//! these functions decide it.

use vstd::prelude::*;

use crate::config::model::{
    copy_opt_string, local_binding_views, opt_str, remote_binding_views, LocalBindingView,
    LocalForward, LocalForwardBinding, LocalForwardView, RemoteBindingView, RemoteForward,
    RemoteForwardBinding, RemoteForwardView,
};
use crate::config::root::ConfigView;
use crate::config::Config;
use crate::http_forward::HttpForwardConfig;
use crate::relay::connection_string::opt_view;
use crate::text::{
    chars_eq_str, chars_of, contains_chars, contains_seq, decimal, has_prefix, occurs_at, push_decimal,
    push_str, starts_with, string_of, to_lowercase, unicode_lower,
};

verus! {

// ---------------------------------------------------------------------------
// Connection strings
// ---------------------------------------------------------------------------

/// The connection string names its entity already (`EntityPath=`, in any
/// case).
pub open spec fn mentions_entity_path(cs: Seq<char>) -> bool {
    contains_seq(unicode_lower(cs), "entitypath="@)
}

/// The connection string with `;EntityPath={relay}` appended, unless it
/// names its entity already.
pub open spec fn with_entity_path(cs: Seq<char>, relay: Seq<char>) -> Seq<char> {
    if mentions_entity_path(cs) {
        cs
    } else {
        cs + ";EntityPath="@ + relay
    }
}

/// `{key}{value}` when the value is given, else nothing.
pub open spec fn opt_part(key: Seq<char>, v: Option<Seq<char>>) -> Seq<char> {
    match v {
        Some(x) => key + x,
        None => Seq::empty(),
    }
}

/// The connection string for a relay: the rule's own, else the configured
/// one (each with the entity path added when it has none), else one built
/// from the endpoint and the configured credentials; none when neither a
/// connection string nor an endpoint is configured.
pub open spec fn connection_string_for(
    c: ConfigView,
    relay: Seq<char>,
    override_cs: Option<Seq<char>>,
) -> Option<Seq<char>> {
    match override_cs {
        Some(cs) => Some(with_entity_path(cs, relay)),
        None => match c.azure_relay_connection_string {
            Some(cs) => Some(with_entity_path(cs, relay)),
            None => match c.azure_relay_endpoint {
                Some(ep) => Some(
                    "Endpoint="@ + ep + ";EntityPath="@ + relay + opt_part(
                        ";SharedAccessKeyName="@,
                        c.azure_relay_shared_access_key_name,
                    ) + opt_part(";SharedAccessKey="@, c.azure_relay_shared_access_key)
                        + opt_part(";SharedAccessSignature="@, c.azure_relay_shared_access_signature),
                ),
                None => None,
            },
        },
    }
}

/// A rule's own connection string wins over everything configured, and a
/// configured one over the endpoint; either is kept as written, with
/// `;EntityPath={relay}` added at its end only when it names no entity
/// path. With neither and no endpoint there is no connection string.
pub proof fn law_connection_string_precedence(
    c1: ConfigView,
    c2: ConfigView,
    relay: Seq<char>,
    cs: Seq<char>,
)
    ensures
        connection_string_for(c1, relay, Some(cs)) == connection_string_for(c2, relay, Some(cs)),
        connection_string_for(c1, relay, Some(cs)) matches Some(t) && (t == cs || t == cs
            + ";EntityPath="@ + relay),
        c1.azure_relay_connection_string == Some(cs) ==> connection_string_for(c1, relay, None)
            == connection_string_for(c2, relay, Some(cs)),
        c1.azure_relay_connection_string is None && c1.azure_relay_endpoint is None
            ==> connection_string_for(c1, relay, None) is None,
{
}

/// Without a connection string of its own or a configured one, a relay's
/// connection string is built from the endpoint: it starts with
/// `Endpoint={endpoint};EntityPath={relay}`, carries each configured
/// credential as `;SharedAccessKeyName=`, `;SharedAccessKey=` and
/// `;SharedAccessSignature=` parts, and ends with the signature when one is
/// configured.
pub proof fn law_endpoint_connection_string_carries_credentials(c: ConfigView, relay: Seq<char>)
    requires
        c.azure_relay_connection_string is None,
        c.azure_relay_endpoint is Some,
    ensures
        connection_string_for(c, relay, None) is Some,
        ({
            let t = connection_string_for(c, relay, None).unwrap();
            let head = "Endpoint="@ + c.azure_relay_endpoint.unwrap() + ";EntityPath="@ + relay;
            &&& t.len() >= head.len()
            &&& t.take(head.len() as int) == head
            &&& (c.azure_relay_shared_access_key_name matches Some(n) ==> contains_seq(
                t,
                ";SharedAccessKeyName="@ + n,
            ))
            &&& (c.azure_relay_shared_access_key matches Some(k) ==> contains_seq(
                t,
                ";SharedAccessKey="@ + k,
            ))
            &&& (c.azure_relay_shared_access_signature matches Some(x) ==> {
                let tail = ";SharedAccessSignature="@ + x;
                &&& t.len() >= tail.len()
                &&& t.skip(t.len() - tail.len()) == tail
            })
            &&& (c.azure_relay_shared_access_key_name is None
                && c.azure_relay_shared_access_key is None
                && c.azure_relay_shared_access_signature is None ==> t == head)
        }),
{
    let t = connection_string_for(c, relay, None).unwrap();
    let head = "Endpoint="@ + c.azure_relay_endpoint.unwrap() + ";EntityPath="@ + relay;
    let pn = opt_part(";SharedAccessKeyName="@, c.azure_relay_shared_access_key_name);
    let pk = opt_part(";SharedAccessKey="@, c.azure_relay_shared_access_key);
    let ps = opt_part(";SharedAccessSignature="@, c.azure_relay_shared_access_signature);
    assert(t == head + pn + pk + ps);
    let a: int = head.len() as int;
    let b: int = a + pn.len();
    let d: int = b + pk.len();
    assert(t.take(head.len() as int) =~= head);
    if let Some(n) = c.azure_relay_shared_access_key_name {
        assert(t.subrange(a, b) =~= pn);
        assert(occurs_at(t, ";SharedAccessKeyName="@ + n, a));
    }
    if let Some(k) = c.azure_relay_shared_access_key {
        assert(t.subrange(b, d) =~= pk);
        assert(occurs_at(t, ";SharedAccessKey="@ + k, b));
    }
    if let Some(x) = c.azure_relay_shared_access_signature {
        assert(t.skip(t.len() - ps.len()) =~= ps);
    }
    if c.azure_relay_shared_access_key_name is None && c.azure_relay_shared_access_key is None
        && c.azure_relay_shared_access_signature is None {
        assert(t =~= head);
    }
}

/// Appends the connection string with the entity path added when it has
/// none.
fn push_with_entity_path(out: &mut Vec<char>, cs: &str, relay: &str)
    ensures
        final(out)@ == old(out)@ + with_entity_path(cs@, relay@),
{
    let lower = to_lowercase(cs);
    let lc = chars_of(lower.as_str());
    let key = chars_of("entitypath=");
    push_str(out, cs);
    if !contains_chars(lc.as_slice(), key.as_slice()) {
        push_str(out, ";EntityPath=");
        push_str(out, relay);
    }
}

/// Appends `{key}{value}` when the value is given.
fn push_opt_part(out: &mut Vec<char>, key: &str, v: &Option<String>)
    ensures
        final(out)@ == old(out)@ + opt_part(key@, opt_str(*v)),
{
    match v {
        Some(x) => {
            push_str(out, key);
            push_str(out, x.as_str());
        },
        None => {
            assert(old(out)@ + Seq::<char>::empty() =~= old(out)@);
        },
    }
}

/// Build a connection string for a given relay name, using the config's
/// global credentials or a per-forward override; `None` when no connection
/// string or endpoint is configured.
pub fn build_connection_string(config: &Config, relay_name: &str, override_cs: Option<&str>) -> (r:
    Option<String>)
    ensures
        match r {
            Some(s) => connection_string_for(config@, relay_name@, opt_view(override_cs)) == Some(
                s@,
            ),
            None => connection_string_for(config@, relay_name@, opt_view(override_cs)) is None,
        },
{
    let mut out: Vec<char> = Vec::new();
    if let Some(cs) = override_cs {
        push_with_entity_path(&mut out, cs, relay_name);
    } else if let Some(cs) = &config.azure_relay_connection_string {
        push_with_entity_path(&mut out, cs.as_str(), relay_name);
    } else if let Some(ep) = &config.azure_relay_endpoint {
        push_str(&mut out, "Endpoint=");
        push_str(&mut out, ep.as_str());
        push_str(&mut out, ";EntityPath=");
        push_str(&mut out, relay_name);
        push_opt_part(&mut out, ";SharedAccessKeyName=", &config.azure_relay_shared_access_key_name);
        push_opt_part(&mut out, ";SharedAccessKey=", &config.azure_relay_shared_access_key);
        push_opt_part(
            &mut out,
            ";SharedAccessSignature=",
            &config.azure_relay_shared_access_signature,
        );
    } else {
        return None;
    }
    let r = string_of(out.as_slice());
    assert(Some(r@) == connection_string_for(config@, relay_name@, opt_view(override_cs)));
    Some(r)
}

// ---------------------------------------------------------------------------
// Settings
// ---------------------------------------------------------------------------

/// The settings a host starts with, the configured values or their
/// defaults.
pub struct StartSettings {
    /// Listen on all interfaces (default: no).
    pub gateway_ports: bool,
    /// Fail the whole start when one rule cannot be set up (default: yes).
    pub exit_on_forward_failure: bool,
    /// Seconds to wait for an outbound connection (default: 60).
    pub connect_timeout_secs: u64,
    /// Keep-alive interval of relay clients, in seconds (default: none).
    pub keep_alive_secs: Option<u64>,
    /// Attempts at creating each relay client or listener (default: 1).
    pub max_attempts: usize,
}

/// The settings of a host for a configuration.
pub fn start_settings(config: &Config) -> (r: StartSettings)
    ensures
        r.gateway_ports == (config.gateway_ports == Some(true)),
        r.exit_on_forward_failure == (config.exit_on_forward_failure != Some(false)),
        r.connect_timeout_secs == match config.connect_timeout {
            Some(t) => t as u64,
            None => 60,
        },
        r.keep_alive_secs == match config.keep_alive_interval {
            Some(k) => Some(k as u64),
            None => None::<u64>,
        },
        r.max_attempts == match config.connection_attempts {
            Some(n) => n as usize,
            None => 1,
        },
{
    StartSettings {
        gateway_ports: match config.gateway_ports {
            Some(g) => g,
            None => false,
        },
        exit_on_forward_failure: match config.exit_on_forward_failure {
            Some(e) => e,
            None => true,
        },
        connect_timeout_secs: match config.connect_timeout {
            Some(t) => t as u64,
            None => 60,
        },
        keep_alive_secs: match config.keep_alive_interval {
            Some(k) => Some(k as u64),
            None => None,
        },
        max_attempts: match config.connection_attempts {
            Some(n) => n as usize,
            None => 1,
        },
    }
}

/// What to do after a failed attempt at creating a relay client or
/// listener.
#[derive(Debug, Clone, Copy, PartialEq, Eq, Structural)]
pub enum AttemptAction {
    /// Wait a second and try again.
    Retry,
    /// Give up on the whole start.
    Abort,
    /// Give up on this rule and go on with the others.
    Skip,
}

/// After failed attempt number `attempt` (counted from one) of
/// `max_attempts`: retry while attempts remain, then abort or skip as the
/// settings say.
pub fn after_failed_attempt(attempt: usize, max_attempts: usize, exit_on_failure: bool) -> (r:
    AttemptAction)
    ensures
        attempt < max_attempts ==> r == AttemptAction::Retry,
        attempt >= max_attempts && exit_on_failure ==> r == AttemptAction::Abort,
        attempt >= max_attempts && !exit_on_failure ==> r == AttemptAction::Skip,
{
    if attempt < max_attempts {
        AttemptAction::Retry
    } else if exit_on_failure {
        AttemptAction::Abort
    } else {
        AttemptAction::Skip
    }
}

/// Whether an address of the given family passes the configured filter:
/// `inet` admits IPv4 only, `inet6` IPv6 only (in any case), anything
/// else, or no filter, admits both.
pub open spec fn family_allows(is_ipv4: bool, family: Option<Seq<char>>) -> bool {
    match family {
        Some(f) => if unicode_lower(f) == "inet"@ {
            is_ipv4
        } else if unicode_lower(f) == "inet6"@ {
            !is_ipv4
        } else {
            true
        },
        None => true,
    }
}

/// Check if an address matches the configured address family filter.
pub fn is_address_family_allowed(is_ipv4: bool, family: Option<&str>) -> (r: bool)
    ensures
        r == family_allows(is_ipv4, opt_view(family)),
{
    match family {
        Some(f) => {
            let lower = to_lowercase(f);
            let lc = chars_of(lower.as_str());
            if chars_eq_str(lc.as_slice(), "inet") {
                is_ipv4
            } else if chars_eq_str(lc.as_slice(), "inet6") {
                !is_ipv4
            } else {
                true
            }
        },
        None => true,
    }
}

// ---------------------------------------------------------------------------
// Ports
// ---------------------------------------------------------------------------

/// The port name of a binding that names none: the port number, with `U`
/// after the magnitude of a (UDP) negative one.
pub open spec fn default_port_name(port: int) -> Seq<char> {
    if port < 0 {
        decimal((-port) as nat) + "U"@
    } else {
        decimal(port as nat)
    }
}

/// The given text, or the default when none is given.
pub open spec fn or_default(v: Option<Seq<char>>, d: Seq<char>) -> Seq<char> {
    match v {
        Some(x) => x,
        None => d,
    }
}

/// The magnitude of a configured port, as the 16-bit port it is used as.
pub open spec fn wire_port(port: int) -> int {
    (if port < 0 {
        -port
    } else {
        port
    }) % 65536
}

/// The magnitude of a port number.
fn port_magnitude(port: i32) -> (r: u64)
    ensures
        r == if port < 0 {
            -port
        } else {
            port as int
        },
{
    if port < 0 {
        (0i64 - port as i64) as u64
    } else {
        port as u64
    }
}

/// The 16-bit port a configured port number is used as.
pub fn wire_port_of(port: i32) -> (r: u16)
    ensures
        r == wire_port(port as int),
{
    (port_magnitude(port) % 65536) as u16
}

/// The port name of a binding: the given one, or the default.
pub fn port_name_of(port: i32, given: &Option<String>) -> (r: String)
    ensures
        r@ == or_default(opt_str(*given), default_port_name(port as int)),
{
    match given {
        Some(n) => n.clone(),
        None => {
            let mut out: Vec<char> = Vec::new();
            push_decimal(&mut out, port_magnitude(port));
            if port < 0 {
                push_str(&mut out, "U");
            }
            let r = string_of(out.as_slice());
            assert(r@ =~= default_port_name(port as int));
            r
        },
    }
}

/// The given text, or a copy of the default.
fn text_or(v: &Option<String>, d: &str) -> (r: String)
    ensures
        r@ == or_default(opt_str(*v), d@),
{
    match v {
        Some(x) => x.clone(),
        None => d.to_owned(),
    }
}

// ---------------------------------------------------------------------------
// Local forwarding
// ---------------------------------------------------------------------------

/// The bindings a host sets up for a local rule: its bindings, or when it
/// has none a single one from its shorthand fields.
pub open spec fn start_local_bindings(lf: LocalForwardView) -> Seq<LocalBindingView> {
    if lf.bindings.len() == 0 {
        seq![
            LocalBindingView {
                bind_address: lf.bind_address,
                host_name: None,
                bind_port: match lf.bind_port {
                    Some(p) => p as int,
                    None => 0,
                },
                port_name: lf.port_name,
                bind_local_socket: lf.bind_local_socket,
                no_authentication: match lf.no_authentication {
                    Some(b) => b,
                    None => false,
                },
            },
        ]
    } else {
        lf.bindings
    }
}

/// What one local binding becomes.
pub enum LocalPlan {
    /// A Unix-socket listener.
    Socket { path: String, port_name: String },
    /// Nothing: the binding has port 0.
    Skip,
    /// A UDP listener (negative port).
    Udp { host: String, port: u16, port_name: String },
    /// A TCP listener.
    Tcp { host: String, port: u16, port_name: String },
}

/// The address a local listener binds: the configured one, else every
/// interface with gateway ports and the loopback interface without.
pub open spec fn bind_host(gateway_ports: bool, addr: Option<Seq<char>>) -> Seq<char> {
    match addr {
        Some(a) => a,
        None => if gateway_ports {
            "0.0.0.0"@
        } else {
            "127.0.0.1"@
        },
    }
}

/// `p` is what the local binding `b` becomes: a socket binding a socket
/// listener (port name `sock` by default), port 0 nothing, a negative port
/// a UDP and a positive one a TCP listener on the bind host.
pub open spec fn local_plan_matches(b: LocalBindingView, gateway_ports: bool, p: LocalPlan) -> bool {
    match b.bind_local_socket {
        Some(path) => p matches LocalPlan::Socket { path: pp, port_name: n } && pp@ == path && n@
            == or_default(b.port_name, "sock"@),
        None => if b.bind_port == 0 {
            p is Skip
        } else {
            let name = or_default(b.port_name, default_port_name(b.bind_port));
            let host = bind_host(gateway_ports, b.bind_address);
            if b.bind_port < 0 {
                p matches LocalPlan::Udp { host: h, port, port_name: n } && h@ == host && port
                    == wire_port(b.bind_port) && n@ == name
            } else {
                p matches LocalPlan::Tcp { host: h, port, port_name: n } && h@ == host && port
                    == wire_port(b.bind_port) && n@ == name
            }
        },
    }
}

/// What one local binding becomes.
pub fn plan_local_binding(b: &LocalForwardBinding, gateway_ports: bool) -> (r: LocalPlan)
    ensures
        local_plan_matches(b@, gateway_ports, r),
{
    if let Some(path) = &b.bind_local_socket {
        return LocalPlan::Socket { path: path.clone(), port_name: text_or(&b.port_name, "sock") };
    }
    if b.bind_port == 0 {
        return LocalPlan::Skip;
    }
    let port_name = port_name_of(b.bind_port, &b.port_name);
    let host = if gateway_ports {
        text_or(&b.bind_address, "0.0.0.0")
    } else {
        text_or(&b.bind_address, "127.0.0.1")
    };
    let port = wire_port_of(b.bind_port);
    if b.bind_port < 0 {
        LocalPlan::Udp { host, port, port_name }
    } else {
        LocalPlan::Tcp { host, port, port_name }
    }
}

/// The bindings a host sets up for a local rule.
pub fn start_bindings_local(lf: &LocalForward) -> (r: Vec<LocalForwardBinding>)
    ensures
        local_binding_views(r@) == start_local_bindings(lf@),
{
    if lf.bindings.len() == 0 {
        let b = LocalForwardBinding {
            bind_address: copy_opt_string(&lf.bind_address),
            host_name: None,
            bind_port: match lf.bind_port {
                Some(p) => p,
                None => 0,
            },
            port_name: copy_opt_string(&lf.port_name),
            bind_local_socket: copy_opt_string(&lf.bind_local_socket),
            no_authentication: match lf.no_authentication {
                Some(n) => n,
                None => false,
            },
        };
        let r = vec![b];
        assert(local_binding_views(r@) =~= start_local_bindings(lf@));
        r
    } else {
        lf.copy().bindings
    }
}

/// What each binding of a local rule becomes, in order.
pub fn plan_local_forward(lf: &LocalForward, gateway_ports: bool) -> (r: Vec<LocalPlan>)
    ensures
        r@.len() == start_local_bindings(lf@).len(),
        forall|i: int|
            0 <= i < r@.len() ==> local_plan_matches(
                start_local_bindings(lf@)[i],
                gateway_ports,
                #[trigger] r@[i],
            ),
{
    let bindings = start_bindings_local(lf);
    let mut r: Vec<LocalPlan> = Vec::new();
    let mut i: usize = 0;
    while i < bindings.len()
        invariant
            i <= bindings@.len(),
            local_binding_views(bindings@) == start_local_bindings(lf@),
            r@.len() == i,
            forall|j: int|
                0 <= j < i ==> local_plan_matches(
                    start_local_bindings(lf@)[j],
                    gateway_ports,
                    #[trigger] r@[j],
                ),
        decreases bindings@.len() - i,
    {
        let p = plan_local_binding(&bindings[i], gateway_ports);
        assert(local_binding_views(bindings@)[i as int] == bindings@[i as int]@);
        r.push(p);
        i = i + 1;
    }
    r
}

// ---------------------------------------------------------------------------
// Remote forwarding
// ---------------------------------------------------------------------------

/// The bindings a host sets up for a remote rule: its bindings, or when it
/// has none a single one from its shorthand fields.
pub open spec fn start_remote_bindings(rf: RemoteForwardView) -> Seq<RemoteBindingView> {
    if rf.bindings.len() == 0 {
        seq![
            RemoteBindingView {
                host: rf.host,
                host_port: match rf.host_port {
                    Some(p) => p as int,
                    None => 0,
                },
                port_name: rf.port_name,
                local_socket: rf.local_socket,
                http: match rf.http {
                    Some(h) => h,
                    None => false,
                },
                insecure: false,
                path: None,
            },
        ]
    } else {
        rf.bindings
    }
}

/// The bindings a host sets up for a remote rule.
pub fn start_bindings_remote(rf: &RemoteForward) -> (r: Vec<RemoteForwardBinding>)
    ensures
        remote_binding_views(r@) == start_remote_bindings(rf@),
{
    if rf.bindings.len() == 0 {
        let b = RemoteForwardBinding {
            host: copy_opt_string(&rf.host),
            host_port: match rf.host_port {
                Some(p) => p,
                None => 0,
            },
            port_name: copy_opt_string(&rf.port_name),
            local_socket: copy_opt_string(&rf.local_socket),
            http: match rf.http {
                Some(h) => h,
                None => false,
            },
            insecure: false,
            path: None,
        };
        let r = vec![b];
        assert(remote_binding_views(r@) =~= start_remote_bindings(rf@));
        r
    } else {
        rf.copy().bindings
    }
}

/// What one remote binding becomes.
pub enum RemotePlan {
    /// An HTTP forwarder.
    Http { config: HttpForwardConfig, port_name: String },
    /// A Unix-socket forwarder.
    Socket { path: String, port_name: String },
    /// Nothing: the binding has port 0.
    Skip,
    /// A UDP forwarder (negative port).
    Udp { host: String, port: u16, port_name: String },
    /// A TCP forwarder.
    Tcp { host: String, port: u16, port_name: String },
}

/// An HTTP target is reached over HTTPS when its port name starts with
/// `https` (in any case) or its path does.
pub open spec fn http_target_is_https(port_name: Seq<char>, path: Option<Seq<char>>) -> bool {
    has_prefix(unicode_lower(port_name), "https"@) || match path {
        Some(p) => has_prefix(p, "https"@),
        None => false,
    }
}

/// `p` is what the remote binding `b` becomes: an HTTP binding an HTTP
/// forwarder, a socket binding a socket forwarder, port 0 nothing, a
/// negative port a UDP and a positive one a TCP forwarder, the host being
/// `localhost` unless given.
pub open spec fn remote_plan_matches(b: RemoteBindingView, p: RemotePlan) -> bool {
    let name = or_default(b.port_name, default_port_name(b.host_port));
    if b.http {
        p matches RemotePlan::Http { config, port_name } && port_name@ == name && config.host@
            == or_default(b.host, "localhost"@) && config.port == wire_port(b.host_port)
            && config.https == http_target_is_https(name, b.path) && config.insecure == b.insecure
            && opt_str(config.path_prefix) == b.path
    } else {
        match b.local_socket {
            Some(path) => p matches RemotePlan::Socket { path: pp, port_name: n } && pp@ == path
                && n@ == name,
            None => if b.host_port == 0 {
                p is Skip
            } else {
                let host = or_default(b.host, "localhost"@);
                if b.host_port < 0 {
                    p matches RemotePlan::Udp { host: h, port, port_name: n } && h@ == host && port
                        == wire_port(b.host_port) && n@ == name
                } else {
                    p matches RemotePlan::Tcp { host: h, port, port_name: n } && h@ == host && port
                        == wire_port(b.host_port) && n@ == name
                }
            },
        }
    }
}

/// Whether `s` starts with `https`.
fn starts_with_https(s: &str) -> (r: bool)
    ensures
        r == has_prefix(s@, "https"@),
{
    let cs = chars_of(s);
    let p = chars_of("https");
    starts_with(cs.as_slice(), p.as_slice())
}

/// What one remote binding becomes.
pub fn plan_remote_binding(b: &RemoteForwardBinding) -> (r: RemotePlan)
    ensures
        remote_plan_matches(b@, r),
{
    let port_name = port_name_of(b.host_port, &b.port_name);
    if b.http {
        let lower = to_lowercase(port_name.as_str());
        let by_name = starts_with_https(lower.as_str());
        let by_path = match &b.path {
            Some(p) => starts_with_https(p.as_str()),
            None => false,
        };
        let config = HttpForwardConfig {
            host: text_or(&b.host, "localhost"),
            port: wire_port_of(b.host_port),
            https: by_name || by_path,
            insecure: b.insecure,
            path_prefix: copy_opt_string(&b.path),
        };
        return RemotePlan::Http { config, port_name };
    }
    if let Some(path) = &b.local_socket {
        return RemotePlan::Socket { path: path.clone(), port_name };
    }
    if b.host_port == 0 {
        return RemotePlan::Skip;
    }
    let host = text_or(&b.host, "localhost");
    let port = wire_port_of(b.host_port);
    if b.host_port < 0 {
        RemotePlan::Udp { host, port, port_name }
    } else {
        RemotePlan::Tcp { host, port, port_name }
    }
}

/// The remote bindings of one relay, served by one listener.
pub struct RemoteGroup {
    pub relay_name: String,
    /// The connection string of the first rule for the relay.
    pub connection_string: String,
    pub bindings: Vec<RemoteForwardBinding>,
}

/// The view of a [`RemoteGroup`].
pub struct GroupView {
    pub relay_name: Seq<char>,
    pub connection_string: Seq<char>,
    pub bindings: Seq<RemoteBindingView>,
}

impl View for RemoteGroup {
    type V = GroupView;

    open spec fn view(&self) -> GroupView {
        GroupView {
            relay_name: self.relay_name@,
            connection_string: self.connection_string@,
            bindings: remote_binding_views(self.bindings@),
        }
    }
}

/// The views of a sequence of groups.
pub open spec fn group_views(gs: Seq<RemoteGroup>) -> Seq<GroupView> {
    gs.map_values(|g: RemoteGroup| g@)
}

/// No two groups are for the same relay.
pub open spec fn distinct_relays(gs: Seq<GroupView>) -> bool {
    forall|i: int, j: int|
        0 <= i < gs.len() && 0 <= j < gs.len() && i != j ==> #[trigger] gs[i].relay_name
            != #[trigger] gs[j].relay_name
}

/// The groups after the bindings of one more rule for `relay`: they join
/// the group of that relay, or start a new one with the rule's connection
/// string.
pub open spec fn add_to_groups(
    gs: Seq<GroupView>,
    relay: Seq<char>,
    cs: Seq<char>,
    bs: Seq<RemoteBindingView>,
) -> Seq<GroupView> {
    if exists|i: int| 0 <= i < gs.len() && #[trigger] gs[i].relay_name == relay {
        let i = choose|i: int| 0 <= i < gs.len() && #[trigger] gs[i].relay_name == relay;
        gs.update(i, GroupView { bindings: gs[i].bindings + bs, ..gs[i] })
    } else {
        gs.push(GroupView { relay_name: relay, connection_string: cs, bindings: bs })
    }
}

/// The listener groups of a sequence of remote rules, in the order their
/// relays first appear. A rule without a connection string ends the setup
/// with its relay's name when the host exits on forward failures, and is
/// left out otherwise.
pub open spec fn groups_of(c: ConfigView, rfs: Seq<RemoteForwardView>, exit_on_failure: bool) -> Result<
    Seq<GroupView>,
    Seq<char>,
>
    decreases rfs.len(),
{
    if rfs.len() == 0 {
        Ok(Seq::empty())
    } else {
        match groups_of(c, rfs.drop_last(), exit_on_failure) {
            Err(e) => Err(e),
            Ok(gs) => {
                let rf = rfs.last();
                match connection_string_for(c, rf.relay_name, rf.connection_string) {
                    None => if exit_on_failure {
                        Err(rf.relay_name)
                    } else {
                        Ok(gs)
                    },
                    Some(cs) => Ok(add_to_groups(gs, rf.relay_name, cs, start_remote_bindings(rf))),
                }
            },
        }
    }
}

/// Appends copies of the bindings to a group.
fn extend_group(g: &mut RemoteGroup, bs: &Vec<RemoteForwardBinding>)
    ensures
        final(g)@ == (GroupView {
            bindings: old(g)@.bindings + remote_binding_views(bs@),
            ..old(g)@
        }),
{
    extend_group_bindings(&mut g.bindings, bs);
}

/// Adds the bindings of one rule to the groups.
fn add_group(
    groups: &mut Vec<RemoteGroup>,
    relay: &str,
    cs: String,
    bs: &Vec<RemoteForwardBinding>,
)
    requires
        distinct_relays(group_views(old(groups)@)),
    ensures
        group_views(final(groups)@) == add_to_groups(
            group_views(old(groups)@),
            relay@,
            cs@,
            remote_binding_views(bs@),
        ),
        distinct_relays(group_views(final(groups)@)),
{
    let ghost gv = group_views(groups@);
    let mut j: usize = 0;
    while j < groups.len()
        invariant
            j <= groups@.len(),
            gv == group_views(groups@),
            groups@ == old(groups)@,
            distinct_relays(gv),
            forall|k: int| 0 <= k < j ==> (#[trigger] groups@[k]).relay_name@ != relay@,
        decreases groups@.len() - j,
    {
        let rn = chars_of(groups[j].relay_name.as_str());
        if chars_eq_str(rn.as_slice(), relay) {
            proof {
                assert(gv[j as int] == groups@[j as int]@);
                assert(gv[j as int].relay_name == relay@);
                let i = choose|i: int| 0 <= i < gv.len() && #[trigger] gv[i].relay_name == relay@;
                assert(i == j);
            }
            let ghost before = groups@;
            let mut g = groups.remove(j);
            extend_group(&mut g, bs);
            groups.insert(j, g);
            proof {
                assert(groups@ =~= before.update(j as int, g));
                assert(group_views(groups@) =~= gv.update(
                    j as int,
                    GroupView { bindings: gv[j as int].bindings + remote_binding_views(bs@), ..gv[j as int] },
                ));
                assert(group_views(groups@) =~= add_to_groups(
                    gv,
                    relay@,
                    cs@,
                    remote_binding_views(bs@),
                ));
            }
            return ;
        }
        j = j + 1;
    }
    let mut bindings: Vec<RemoteForwardBinding> = Vec::new();
    extend_group_bindings(&mut bindings, bs);
    groups.push(RemoteGroup { relay_name: relay.to_owned(), connection_string: cs, bindings });
    proof {
        assert forall|i: int| 0 <= i < gv.len() implies #[trigger] gv[i].relay_name != relay@ by {
            assert(gv[i] == groups@[i]@);
        }
        assert(group_views(groups@) =~= add_to_groups(
            gv,
            relay@,
            cs@,
            remote_binding_views(bs@),
        ));
    }
}

/// Appends copies of bindings.
fn extend_group_bindings(dst: &mut Vec<RemoteForwardBinding>, bs: &Vec<RemoteForwardBinding>)
    ensures
        remote_binding_views(final(dst)@) == remote_binding_views(old(dst)@)
            + remote_binding_views(bs@),
{
    let ghost start = dst@;
    let mut i: usize = 0;
    while i < bs.len()
        invariant
            i <= bs@.len(),
            dst@.len() == start.len() + i,
            forall|j: int| 0 <= j < start.len() ==> #[trigger] dst@[j] == start[j],
            forall|j: int| 0 <= j < i ==> (#[trigger] dst@[start.len() + j])@ == bs@[j]@,
        decreases bs@.len() - i,
    {
        dst.push(bs[i].copy());
        i = i + 1;
    }
    assert(remote_binding_views(dst@) =~= remote_binding_views(start) + remote_binding_views(
        bs@,
    )) by {
        assert forall|j: int| 0 <= j < dst@.len() implies #[trigger] remote_binding_views(dst@)[j]
            == (remote_binding_views(start) + remote_binding_views(bs@))[j] by {
            if j >= start.len() {
                assert(dst@[start.len() + (j - start.len())]@ == bs@[j - start.len()]@);
            }
        }
    }
}

/// Groups the remote rules of a configuration by relay, one listener per
/// relay; `Err` carries the relay whose rule has no connection string when
/// that ends the setup.
pub fn group_remote_forwards(config: &Config, exit_on_failure: bool) -> (r: Result<
    Vec<RemoteGroup>,
    String,
>)
    ensures
        match r {
            Ok(gs) => groups_of(config@, config@.remote_forward, exit_on_failure) == Ok::<
                Seq<GroupView>,
                Seq<char>,
            >(group_views(gs@)),
            Err(n) => groups_of(config@, config@.remote_forward, exit_on_failure) == Err::<
                Seq<GroupView>,
                Seq<char>,
            >(n@),
        },
{
    let mut groups: Vec<RemoteGroup> = Vec::new();
    let mut i: usize = 0;
    let ghost rfs = config@.remote_forward;
    assert(group_views(groups@) =~= Seq::<GroupView>::empty());
    assert(rfs.take(0) =~= Seq::<RemoteForwardView>::empty());
    while i < config.remote_forward.len()
        invariant
            i <= config.remote_forward@.len(),
            rfs == config@.remote_forward,
            rfs.len() == config.remote_forward@.len(),
            groups_of(config@, rfs.take(i as int), exit_on_failure) == Ok::<
                Seq<GroupView>,
                Seq<char>,
            >(group_views(groups@)),
            distinct_relays(group_views(groups@)),
        decreases config.remote_forward@.len() - i,
    {
        let rf = &config.remote_forward[i];
        proof {
            assert(rfs.take(i + 1).drop_last() =~= rfs.take(i as int));
            assert(rfs.take(i + 1).last() == rf@);
        }
        let cs = build_connection_string(
            config,
            rf.relay_name.as_str(),
            match &rf.connection_string {
                Some(s) => Some(s.as_str()),
                None => None,
            },
        );
        match cs {
            None => {
                if exit_on_failure {
                    proof {
                        lemma_groups_err_stays(config@, rfs, i + 1, exit_on_failure);
                    }
                    return Err(rf.relay_name.clone());
                }
            },
            Some(cs) => {
                let bs = start_bindings_remote(rf);
                add_group(&mut groups, rf.relay_name.as_str(), cs, &bs);
            },
        }
        i = i + 1;
    }
    assert(rfs.take(rfs.len() as int) =~= rfs);
    Ok(groups)
}

/// Once the grouping of a prefix of the rules fails, the grouping of all of
/// them fails the same way.
pub proof fn lemma_groups_err_stays(
    c: ConfigView,
    rfs: Seq<RemoteForwardView>,
    k: int,
    exit: bool,
)
    requires
        0 <= k <= rfs.len(),
        groups_of(c, rfs.take(k), exit) is Err,
    ensures
        groups_of(c, rfs, exit) == groups_of(c, rfs.take(k), exit),
    decreases rfs.len() - k,
{
    if k < rfs.len() {
        assert(rfs.take(k + 1).drop_last() =~= rfs.take(k));
        lemma_groups_err_stays(c, rfs, k + 1, exit);
    } else {
        assert(rfs.take(k) =~= rfs);
    }
}

/// The local rules a host sets up, in order, each as its position in the
/// configuration and its connection string; a rule without a connection
/// string is skipped, or ends the setup with `Err` of its relay name when
/// forward failures are fatal.
pub open spec fn local_rules_of(
    c: ConfigView,
    lfs: Seq<LocalForwardView>,
    exit_on_failure: bool,
) -> Result<Seq<(int, Seq<char>)>, Seq<char>>
    decreases lfs.len(),
{
    if lfs.len() == 0 {
        Ok(Seq::empty())
    } else {
        match local_rules_of(c, lfs.drop_last(), exit_on_failure) {
            Err(e) => Err(e),
            Ok(rs) => {
                let lf = lfs.last();
                match connection_string_for(c, lf.relay_name, lf.connection_string) {
                    None => if exit_on_failure {
                        Err(lf.relay_name)
                    } else {
                        Ok(rs)
                    },
                    Some(cs) => Ok(rs.push((lfs.len() - 1, cs))),
                }
            },
        }
    }
}

/// The view of planned local rules.
pub open spec fn local_rule_views(v: Seq<(usize, String)>) -> Seq<(int, Seq<char>)> {
    v.map_values(|x: (usize, String)| (x.0 as int, x.1@))
}

/// Once the planning of a prefix of the local rules fails, the planning of
/// all of them fails the same way.
proof fn lemma_local_err_stays(c: ConfigView, lfs: Seq<LocalForwardView>, k: int, exit: bool)
    requires
        0 <= k <= lfs.len(),
        local_rules_of(c, lfs.take(k), exit) is Err,
    ensures
        local_rules_of(c, lfs, exit) == local_rules_of(c, lfs.take(k), exit),
    decreases lfs.len() - k,
{
    if k < lfs.len() {
        assert(lfs.take(k + 1).drop_last() =~= lfs.take(k));
        lemma_local_err_stays(c, lfs, k + 1, exit);
    } else {
        assert(lfs.take(k) =~= lfs);
    }
}

/// The local rules a host sets up, with their connection strings; `Err`
/// carries the relay whose rule has no connection string when that ends
/// the setup.
pub fn plan_local_rules(config: &Config, exit_on_failure: bool) -> (r: Result<
    Vec<(usize, String)>,
    String,
>)
    ensures
        match r {
            Ok(v) => local_rules_of(config@, config@.local_forward, exit_on_failure) == Ok::<
                Seq<(int, Seq<char>)>,
                Seq<char>,
            >(local_rule_views(v@)),
            Err(n) => local_rules_of(config@, config@.local_forward, exit_on_failure) == Err::<
                Seq<(int, Seq<char>)>,
                Seq<char>,
            >(n@),
        },
{
    let mut out: Vec<(usize, String)> = Vec::new();
    let mut i: usize = 0;
    let ghost lfs = config@.local_forward;
    assert(local_rule_views(out@) =~= Seq::<(int, Seq<char>)>::empty());
    assert(lfs.take(0) =~= Seq::<LocalForwardView>::empty());
    while i < config.local_forward.len()
        invariant
            i <= config.local_forward@.len(),
            lfs == config@.local_forward,
            lfs.len() == config.local_forward@.len(),
            local_rules_of(config@, lfs.take(i as int), exit_on_failure) == Ok::<
                Seq<(int, Seq<char>)>,
                Seq<char>,
            >(local_rule_views(out@)),
        decreases config.local_forward@.len() - i,
    {
        let lf = &config.local_forward[i];
        proof {
            assert(lfs.take(i + 1).drop_last() =~= lfs.take(i as int));
            assert(lfs.take(i + 1).last() == lf@);
        }
        let cs = build_connection_string(
            config,
            lf.relay_name.as_str(),
            match &lf.connection_string {
                Some(s) => Some(s.as_str()),
                None => None,
            },
        );
        match cs {
            None => {
                if exit_on_failure {
                    proof {
                        lemma_local_err_stays(config@, lfs, i + 1, exit_on_failure);
                    }
                    return Err(lf.relay_name.clone());
                }
            },
            Some(cs) => {
                let ghost before = out@;
                let ghost cv = cs@;
                out.push((i, cs));
                assert(local_rule_views(out@) =~= local_rule_views(before).push((i as int, cv)));
            },
        }
        i = i + 1;
    }
    assert(lfs.take(lfs.len() as int) =~= lfs);
    Ok(out)
}

} // verus!
