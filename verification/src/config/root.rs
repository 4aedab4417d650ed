//! The root configuration: validation, layering (`merge`) and the
//! normalisation of the single-binding shorthand of forwarding rules.

use vstd::prelude::*;

use crate::config::model::{
    copy_opt_string, local_forward_views, opt_str, remote_forward_views, ConfigError,
    LocalBindingView, LocalForward, LocalForwardBinding, LocalForwardView, RemoteBindingView,
    RemoteForward, RemoteForwardBinding, RemoteForwardView,
};
use crate::config::parse::{is_relay_name, relay_name_ok};
use crate::text::{
    chars_eq_str, chars_of, lower_chars, lower_seq, push_chars, push_decimal, push_int_decimal,
    push_str, string_of,
};

verus! {

/// Root configuration for azbridge.
#[derive(Debug)]
pub struct Config {
    pub address_family: Option<String>,
    pub azure_relay_connection_string: Option<String>,
    pub azure_relay_endpoint: Option<String>,
    pub azure_relay_shared_access_key_name: Option<String>,
    pub azure_relay_shared_access_key: Option<String>,
    pub azure_relay_shared_access_signature: Option<String>,
    pub bind_address: Option<String>,
    pub clear_all_forwardings: Option<bool>,
    pub connection_attempts: Option<u32>,
    pub connect_timeout: Option<u32>,
    pub exit_on_forward_failure: Option<bool>,
    pub gateway_ports: Option<bool>,
    pub keep_alive_interval: Option<u32>,
    pub log_level: Option<String>,
    pub log_file_name: Option<String>,
    pub local_forward: Vec<LocalForward>,
    pub remote_forward: Vec<RemoteForward>,
}

/// The view of a [`Config`].
pub struct ConfigView {
    pub address_family: Option<Seq<char>>,
    pub azure_relay_connection_string: Option<Seq<char>>,
    pub azure_relay_endpoint: Option<Seq<char>>,
    pub azure_relay_shared_access_key_name: Option<Seq<char>>,
    pub azure_relay_shared_access_key: Option<Seq<char>>,
    pub azure_relay_shared_access_signature: Option<Seq<char>>,
    pub bind_address: Option<Seq<char>>,
    pub clear_all_forwardings: Option<bool>,
    pub connection_attempts: Option<u32>,
    pub connect_timeout: Option<u32>,
    pub exit_on_forward_failure: Option<bool>,
    pub gateway_ports: Option<bool>,
    pub keep_alive_interval: Option<u32>,
    pub log_level: Option<Seq<char>>,
    pub log_file_name: Option<Seq<char>>,
    pub local_forward: Seq<LocalForwardView>,
    pub remote_forward: Seq<RemoteForwardView>,
}

impl View for Config {
    type V = ConfigView;

    open spec fn view(&self) -> ConfigView {
        ConfigView {
            address_family: opt_str(self.address_family),
            azure_relay_connection_string: opt_str(self.azure_relay_connection_string),
            azure_relay_endpoint: opt_str(self.azure_relay_endpoint),
            azure_relay_shared_access_key_name: opt_str(self.azure_relay_shared_access_key_name),
            azure_relay_shared_access_key: opt_str(self.azure_relay_shared_access_key),
            azure_relay_shared_access_signature: opt_str(self.azure_relay_shared_access_signature),
            bind_address: opt_str(self.bind_address),
            clear_all_forwardings: self.clear_all_forwardings,
            connection_attempts: self.connection_attempts,
            connect_timeout: self.connect_timeout,
            exit_on_forward_failure: self.exit_on_forward_failure,
            gateway_ports: self.gateway_ports,
            keep_alive_interval: self.keep_alive_interval,
            log_level: opt_str(self.log_level),
            log_file_name: opt_str(self.log_file_name),
            local_forward: local_forward_views(self.local_forward@),
            remote_forward: remote_forward_views(self.remote_forward@),
        }
    }
}

impl Clone for Config {
    fn clone(&self) -> (r: Self)
        ensures
            r@ == self@,
    {
        let mut local_forward: Vec<LocalForward> = Vec::new();
        append_local_copies(&mut local_forward, &self.local_forward);
        let mut remote_forward: Vec<RemoteForward> = Vec::new();
        append_remote_copies(&mut remote_forward, &self.remote_forward);
        let r = Config {
            address_family: copy_opt_string(&self.address_family),
            azure_relay_connection_string: copy_opt_string(&self.azure_relay_connection_string),
            azure_relay_endpoint: copy_opt_string(&self.azure_relay_endpoint),
            azure_relay_shared_access_key_name: copy_opt_string(
                &self.azure_relay_shared_access_key_name,
            ),
            azure_relay_shared_access_key: copy_opt_string(&self.azure_relay_shared_access_key),
            azure_relay_shared_access_signature: copy_opt_string(
                &self.azure_relay_shared_access_signature,
            ),
            bind_address: copy_opt_string(&self.bind_address),
            clear_all_forwardings: self.clear_all_forwardings,
            connection_attempts: self.connection_attempts,
            connect_timeout: self.connect_timeout,
            exit_on_forward_failure: self.exit_on_forward_failure,
            gateway_ports: self.gateway_ports,
            keep_alive_interval: self.keep_alive_interval,
            log_level: copy_opt_string(&self.log_level),
            log_file_name: copy_opt_string(&self.log_file_name),
            local_forward,
            remote_forward,
        };
        assert(local_forward_views(r.local_forward@) =~= local_forward_views(self.local_forward@));
        assert(remote_forward_views(r.remote_forward@) =~= remote_forward_views(
            self.remote_forward@,
        ));
        r
    }
}

/// The configuration with nothing set.
pub open spec fn default_config() -> ConfigView {
    ConfigView {
        address_family: None,
        azure_relay_connection_string: None,
        azure_relay_endpoint: None,
        azure_relay_shared_access_key_name: None,
        azure_relay_shared_access_key: None,
        azure_relay_shared_access_signature: None,
        bind_address: None,
        clear_all_forwardings: None,
        connection_attempts: None,
        connect_timeout: None,
        exit_on_forward_failure: None,
        gateway_ports: None,
        keep_alive_interval: None,
        log_level: None,
        log_file_name: None,
        local_forward: Seq::empty(),
        remote_forward: Seq::empty(),
    }
}

impl Default for Config {
    fn default() -> (r: Self)
        ensures
            r@ == default_config(),
    {
        let r = Config {
            address_family: None,
            azure_relay_connection_string: None,
            azure_relay_endpoint: None,
            azure_relay_shared_access_key_name: None,
            azure_relay_shared_access_key: None,
            azure_relay_shared_access_signature: None,
            bind_address: None,
            clear_all_forwardings: None,
            connection_attempts: None,
            connect_timeout: None,
            exit_on_forward_failure: None,
            gateway_ports: None,
            keep_alive_interval: None,
            log_level: None,
            log_file_name: None,
            local_forward: Vec::new(),
            remote_forward: Vec::new(),
        };
        assert(local_forward_views(r.local_forward@) =~= Seq::<LocalForwardView>::empty());
        assert(remote_forward_views(r.remote_forward@) =~= Seq::<RemoteForwardView>::empty());
        r
    }
}

// ---------------------------------------------------------------------------
// Validation
// ---------------------------------------------------------------------------

/// `AddressFamily` is `any`, `inet` or `inet6`, compared without regard to
/// case. (Lowercasing with `str::to_lowercase` gives one of these three
/// exactly when the ASCII lowercase does: no non-ASCII character lowercases
/// to a letter of them.)
pub open spec fn address_family_ok(af: Seq<char>) -> bool {
    let l = lower_seq(af);
    l == "any"@ || l == "inet"@ || l == "inet6"@
}

/// A bind or host port: not 0 and within -65535..=65535 (negative = UDP).
pub open spec fn port_in_range(p: int) -> bool {
    p != 0 && -65535 <= p <= 65535
}

/// A local rule is valid when its relay name (if set) is well formed and
/// every binding's port is in range.
pub open spec fn local_forward_valid(f: LocalForwardView) -> bool {
    &&& (f.relay_name.len() == 0 || is_relay_name(f.relay_name))
    &&& forall|j: int|
        0 <= j < f.bindings.len() ==> port_in_range(#[trigger] f.bindings[j].bind_port)
}

/// A remote rule is valid when its relay name (if set) is well formed and
/// every binding's host port is in range.
pub open spec fn remote_forward_valid(f: RemoteForwardView) -> bool {
    &&& (f.relay_name.len() == 0 || is_relay_name(f.relay_name))
    &&& forall|j: int|
        0 <= j < f.bindings.len() ==> port_in_range(#[trigger] f.bindings[j].host_port)
}

/// What [`Config::validate_with_file`] accepts.
pub open spec fn config_valid(c: ConfigView) -> bool {
    &&& (c.address_family matches Some(af) ==> address_family_ok(af))
    &&& (c.connection_attempts matches Some(a) ==> 1 <= a <= 10)
    &&& (c.connect_timeout matches Some(t) ==> t <= 120)
    &&& forall|i: int|
        0 <= i < c.local_forward.len() ==> local_forward_valid(#[trigger] c.local_forward[i])
    &&& forall|i: int|
        0 <= i < c.remote_forward.len() ==> remote_forward_valid(#[trigger] c.remote_forward[i])
}

/// A `Validation` error for `file` whose message is the given characters.
fn validation_error(file: &str, message: &[char]) -> (e: ConfigError)
    ensures
        e matches ConfigError::Validation { file: f, .. } && f@ == file@,
{
    ConfigError::Validation { file: file.to_owned(), message: string_of(message) }
}

/// Checks a local binding port: not 0 and within -65535..=65535.
fn validate_bind_port(port: i32, file: &str) -> (r: Result<(), ConfigError>)
    ensures
        r is Ok <==> port_in_range(port as int),
        r matches Err(e) ==> e matches ConfigError::Validation { file: f, .. } && f@ == file@,
{
    if port == 0 || port < -65535 || port > 65535 {
        let mut m: Vec<char> = Vec::new();
        push_str(&mut m, "bind_port must be in -65535..=65535 and not 0, got ");
        push_int_decimal(&mut m, port as i64);
        return Err(validation_error(file, m.as_slice()));
    }
    Ok(())
}

/// Checks a remote binding port: not 0 and within -65535..=65535.
fn validate_host_port(port: i32, file: &str) -> (r: Result<(), ConfigError>)
    ensures
        r is Ok <==> port_in_range(port as int),
        r matches Err(e) ==> e matches ConfigError::Validation { file: f, .. } && f@ == file@,
{
    if port == 0 || port < -65535 || port > 65535 {
        let mut m: Vec<char> = Vec::new();
        push_str(&mut m, "host_port must be in -65535..=65535 and not 0, got ");
        push_int_decimal(&mut m, port as i64);
        return Err(validation_error(file, m.as_slice()));
    }
    Ok(())
}

fn address_family_is_known(af: &String) -> (r: bool)
    ensures
        r == address_family_ok(af@),
{
    let v = chars_of(af.as_str());
    let l = lower_chars(v.as_slice());
    chars_eq_str(l.as_slice(), "any") || chars_eq_str(l.as_slice(), "inet") || chars_eq_str(
        l.as_slice(),
        "inet6",
    )
}

fn validate_local_forward(lf: &LocalForward, file: &str) -> (r: Result<(), ConfigError>)
    ensures
        r is Ok <==> local_forward_valid(lf@),
        r matches Err(e) ==> e matches ConfigError::Validation { file: f, .. } && f@ == file@,
{
    let name = chars_of(lf.relay_name.as_str());
    if name.len() != 0 && !relay_name_ok(name.as_slice()) {
        let mut m: Vec<char> = Vec::new();
        push_str(&mut m, "Invalid LocalForward relay name: '");
        push_chars(&mut m, name.as_slice());
        push_str(&mut m, "'");
        return Err(validation_error(file, m.as_slice()));
    }
    let mut j: usize = 0;
    while j < lf.bindings.len()
        invariant
            j <= lf.bindings@.len(),
            forall|k: int| 0 <= k < j ==> port_in_range(#[trigger] lf.bindings@[k].bind_port as int),
        decreases lf.bindings@.len() - j,
    {
        let r = validate_bind_port(lf.bindings[j].bind_port, file);
        if r.is_err() {
            proof {
                assert(lf@.bindings[j as int] == lf.bindings@[j as int]@);
                assert(!port_in_range(lf@.bindings[j as int].bind_port));
            }
            return r;
        }
        j = j + 1;
    }
    proof {
        assert forall|k: int| 0 <= k < lf@.bindings.len() implies port_in_range(
            #[trigger] lf@.bindings[k].bind_port,
        ) by {
            assert(lf@.bindings[k] == lf.bindings@[k]@);
        }
    }
    Ok(())
}

fn validate_remote_forward(rf: &RemoteForward, file: &str) -> (r: Result<(), ConfigError>)
    ensures
        r is Ok <==> remote_forward_valid(rf@),
        r matches Err(e) ==> e matches ConfigError::Validation { file: f, .. } && f@ == file@,
{
    let name = chars_of(rf.relay_name.as_str());
    if name.len() != 0 && !relay_name_ok(name.as_slice()) {
        let mut m: Vec<char> = Vec::new();
        push_str(&mut m, "Invalid RemoteForward relay name: '");
        push_chars(&mut m, name.as_slice());
        push_str(&mut m, "'");
        return Err(validation_error(file, m.as_slice()));
    }
    let mut j: usize = 0;
    while j < rf.bindings.len()
        invariant
            j <= rf.bindings@.len(),
            forall|k: int| 0 <= k < j ==> port_in_range(#[trigger] rf.bindings@[k].host_port as int),
        decreases rf.bindings@.len() - j,
    {
        let r = validate_host_port(rf.bindings[j].host_port, file);
        if r.is_err() {
            proof {
                assert(rf@.bindings[j as int] == rf.bindings@[j as int]@);
                assert(!port_in_range(rf@.bindings[j as int].host_port));
            }
            return r;
        }
        j = j + 1;
    }
    proof {
        assert forall|k: int| 0 <= k < rf@.bindings.len() implies port_in_range(
            #[trigger] rf@.bindings[k].host_port,
        ) by {
            assert(rf@.bindings[k] == rf.bindings@[k]@);
        }
    }
    Ok(())
}

impl Config {
    /// Validate the configuration, returning the first error found.
    pub fn validate(&self) -> (r: Result<(), ConfigError>)
        ensures
            r is Ok <==> config_valid(self@),
            r matches Err(e) ==> e matches ConfigError::Validation { file: f, .. } && f@
                == "<unknown>"@,
    {
        self.validate_with_file("<unknown>")
    }

    /// Validate with a file name for error messages.
    pub fn validate_with_file(&self, file: &str) -> (r: Result<(), ConfigError>)
        ensures
            r is Ok <==> config_valid(self@),
            r matches Err(e) ==> e matches ConfigError::Validation { file: f, .. } && f@ == file@,
    {
        if let Some(af) = &self.address_family {
            if !address_family_is_known(af) {
                let mut m: Vec<char> = Vec::new();
                push_str(&mut m, "AddressFamily must be 'any', 'inet', or 'inet6', got '");
                push_str(&mut m, af.as_str());
                push_str(&mut m, "'");
                return Err(validation_error(file, m.as_slice()));
            }
        }
        if let Some(attempts) = self.connection_attempts {
            if attempts < 1 || attempts > 10 {
                let mut m: Vec<char> = Vec::new();
                push_str(&mut m, "ConnectionAttempts must be 1..10, got ");
                push_decimal(&mut m, attempts as u64);
                return Err(validation_error(file, m.as_slice()));
            }
        }
        if let Some(timeout) = self.connect_timeout {
            if timeout > 120 {
                let mut m: Vec<char> = Vec::new();
                push_str(&mut m, "ConnectTimeout must be 0..120, got ");
                push_decimal(&mut m, timeout as u64);
                return Err(validation_error(file, m.as_slice()));
            }
        }
        let mut i: usize = 0;
        while i < self.local_forward.len()
            invariant
                i <= self.local_forward@.len(),
                forall|k: int|
                    0 <= k < i ==> local_forward_valid(#[trigger] self.local_forward@[k]@),
            decreases self.local_forward@.len() - i,
        {
            let r = validate_local_forward(&self.local_forward[i], file);
            if r.is_err() {
                assert(self@.local_forward[i as int] == self.local_forward@[i as int]@);
                assert(!local_forward_valid(self@.local_forward[i as int]));
                return r;
            }
            i = i + 1;
        }
        let mut i: usize = 0;
        while i < self.remote_forward.len()
            invariant
                i <= self.remote_forward@.len(),
                forall|k: int|
                    0 <= k < i ==> remote_forward_valid(#[trigger] self.remote_forward@[k]@),
            decreases self.remote_forward@.len() - i,
        {
            let r = validate_remote_forward(&self.remote_forward[i], file);
            if r.is_err() {
                assert(self@.remote_forward[i as int] == self.remote_forward@[i as int]@);
                assert(!remote_forward_valid(self@.remote_forward[i as int]));
                return r;
            }
            i = i + 1;
        }
        proof {
            assert forall|k: int| 0 <= k < self@.local_forward.len() implies local_forward_valid(
                #[trigger] self@.local_forward[k],
            ) by {
                assert(self@.local_forward[k] == self.local_forward@[k]@);
            }
            assert forall|k: int|
                0 <= k < self@.remote_forward.len() implies remote_forward_valid(
                #[trigger] self@.remote_forward[k],
            ) by {
                assert(self@.remote_forward[k] == self.remote_forward@[k]@);
            }
        }
        Ok(())
    }
}

// ---------------------------------------------------------------------------
// Layering
// ---------------------------------------------------------------------------

/// An overlay value wins when it is set.
pub open spec fn pick<T>(mine: Option<T>, theirs: Option<T>) -> Option<T> {
    match theirs {
        Some(_) => theirs,
        None => mine,
    }
}

/// `a` with the layer `b` merged over it: every value set in `b` overrides
/// `a`, and `b`'s forwarding rules are appended to `a`'s, which are dropped
/// first when `b` sets `ClearAllForwardings: true`.
pub open spec fn merged(a: ConfigView, b: ConfigView) -> ConfigView {
    let clear = b.clear_all_forwardings == Some(true);
    ConfigView {
        address_family: pick(a.address_family, b.address_family),
        azure_relay_connection_string: pick(
            a.azure_relay_connection_string,
            b.azure_relay_connection_string,
        ),
        azure_relay_endpoint: pick(a.azure_relay_endpoint, b.azure_relay_endpoint),
        azure_relay_shared_access_key_name: pick(
            a.azure_relay_shared_access_key_name,
            b.azure_relay_shared_access_key_name,
        ),
        azure_relay_shared_access_key: pick(
            a.azure_relay_shared_access_key,
            b.azure_relay_shared_access_key,
        ),
        azure_relay_shared_access_signature: pick(
            a.azure_relay_shared_access_signature,
            b.azure_relay_shared_access_signature,
        ),
        bind_address: pick(a.bind_address, b.bind_address),
        clear_all_forwardings: pick(a.clear_all_forwardings, b.clear_all_forwardings),
        connection_attempts: pick(a.connection_attempts, b.connection_attempts),
        connect_timeout: pick(a.connect_timeout, b.connect_timeout),
        exit_on_forward_failure: pick(a.exit_on_forward_failure, b.exit_on_forward_failure),
        gateway_ports: pick(a.gateway_ports, b.gateway_ports),
        keep_alive_interval: pick(a.keep_alive_interval, b.keep_alive_interval),
        log_level: pick(a.log_level, b.log_level),
        log_file_name: pick(a.log_file_name, b.log_file_name),
        local_forward: (if clear {
            Seq::empty()
        } else {
            a.local_forward
        }) + b.local_forward,
        remote_forward: (if clear {
            Seq::empty()
        } else {
            a.remote_forward
        }) + b.remote_forward,
    }
}

/// Replaces `mine` by a copy of `theirs` when `theirs` is set.
fn pick_string(mine: &mut Option<String>, theirs: &Option<String>)
    ensures
        opt_str(*final(mine)) == pick(opt_str(*old(mine)), opt_str(*theirs)),
{
    if theirs.is_some() {
        *mine = copy_opt_string(theirs);
    }
}

/// Appends copies of `src`'s rules to `dst`.
fn append_local_copies(dst: &mut Vec<LocalForward>, src: &Vec<LocalForward>)
    ensures
        local_forward_views(final(dst)@) == local_forward_views(old(dst)@) + local_forward_views(
            src@,
        ),
{
    let ghost start = dst@;
    let mut i: usize = 0;
    while i < src.len()
        invariant
            i <= src@.len(),
            dst@.len() == start.len() + i,
            forall|j: int| 0 <= j < start.len() ==> #[trigger] dst@[j] == start[j],
            forall|j: int| 0 <= j < i ==> (#[trigger] dst@[start.len() + j])@ == src@[j]@,
        decreases src@.len() - i,
    {
        let f = src[i].copy();
        dst.push(f);
        i = i + 1;
    }
    assert(local_forward_views(dst@) =~= local_forward_views(start) + local_forward_views(src@))
        by {
        assert forall|j: int| 0 <= j < dst@.len() implies local_forward_views(dst@)[j] == (
        local_forward_views(start) + local_forward_views(src@))[j] by {
            if j >= start.len() {
                assert(dst@[start.len() + (j - start.len())]@ == src@[j - start.len()]@);
            }
        }
    }
}

/// Appends copies of `src`'s rules to `dst`.
fn append_remote_copies(dst: &mut Vec<RemoteForward>, src: &Vec<RemoteForward>)
    ensures
        remote_forward_views(final(dst)@) == remote_forward_views(old(dst)@)
            + remote_forward_views(src@),
{
    let ghost start = dst@;
    let mut i: usize = 0;
    while i < src.len()
        invariant
            i <= src@.len(),
            dst@.len() == start.len() + i,
            forall|j: int| 0 <= j < start.len() ==> #[trigger] dst@[j] == start[j],
            forall|j: int| 0 <= j < i ==> (#[trigger] dst@[start.len() + j])@ == src@[j]@,
        decreases src@.len() - i,
    {
        let f = src[i].copy();
        dst.push(f);
        i = i + 1;
    }
    assert(remote_forward_views(dst@) =~= remote_forward_views(start) + remote_forward_views(
        src@,
    )) by {
        assert forall|j: int| 0 <= j < dst@.len() implies remote_forward_views(dst@)[j] == (
        remote_forward_views(start) + remote_forward_views(src@))[j] by {
            if j >= start.len() {
                assert(dst@[start.len() + (j - start.len())]@ == src@[j - start.len()]@);
            }
        }
    }
}

impl Config {
    /// Merge another config into this one. Non-None values from `other` override.
    pub fn merge(&mut self, other: &Config)
        ensures
            final(self)@ == merged(old(self)@, other@),
    {
        pick_string(&mut self.address_family, &other.address_family);
        pick_string(&mut self.azure_relay_connection_string, &other.azure_relay_connection_string);
        pick_string(&mut self.azure_relay_endpoint, &other.azure_relay_endpoint);
        pick_string(
            &mut self.azure_relay_shared_access_key_name,
            &other.azure_relay_shared_access_key_name,
        );
        pick_string(&mut self.azure_relay_shared_access_key, &other.azure_relay_shared_access_key);
        pick_string(
            &mut self.azure_relay_shared_access_signature,
            &other.azure_relay_shared_access_signature,
        );
        pick_string(&mut self.bind_address, &other.bind_address);
        if other.clear_all_forwardings.is_some() {
            self.clear_all_forwardings = other.clear_all_forwardings;
        }
        if other.connection_attempts.is_some() {
            self.connection_attempts = other.connection_attempts;
        }
        if other.connect_timeout.is_some() {
            self.connect_timeout = other.connect_timeout;
        }
        if other.exit_on_forward_failure.is_some() {
            self.exit_on_forward_failure = other.exit_on_forward_failure;
        }
        if other.gateway_ports.is_some() {
            self.gateway_ports = other.gateway_ports;
        }
        if other.keep_alive_interval.is_some() {
            self.keep_alive_interval = other.keep_alive_interval;
        }
        pick_string(&mut self.log_level, &other.log_level);
        pick_string(&mut self.log_file_name, &other.log_file_name);

        let clear = match other.clear_all_forwardings {
            Some(b) => b,
            None => false,
        };
        if clear {
            self.local_forward.clear();
            self.remote_forward.clear();
        }
        append_local_copies(&mut self.local_forward, &other.local_forward);
        append_remote_copies(&mut self.remote_forward, &other.remote_forward);
        assert(local_forward_views(Seq::<LocalForward>::empty())
            =~= Seq::<LocalForwardView>::empty());
        assert(remote_forward_views(Seq::<RemoteForward>::empty())
            =~= Seq::<RemoteForwardView>::empty());
    }
}

// ---------------------------------------------------------------------------
// Normalisation of the single-binding shorthand
// ---------------------------------------------------------------------------

pub open spec fn unwrap_or<T>(o: Option<T>, d: T) -> T {
    match o {
        Some(v) => v,
        None => d,
    }
}

/// Whether a local rule uses any of the flat single-binding fields.
pub open spec fn local_has_shorthand(f: LocalForwardView) -> bool {
    ||| f.bind_address is Some
    ||| f.bind_port is Some
    ||| f.port_name is Some
    ||| f.bind_local_socket is Some
    ||| f.host_name is Some
    ||| f.no_authentication is Some
}

/// A local rule with its flat fields promoted into a single binding, when it
/// has no bindings and uses the shorthand; otherwise unchanged.
pub open spec fn normalized_local(f: LocalForwardView) -> LocalForwardView {
    if f.bindings.len() != 0 || !local_has_shorthand(f) {
        f
    } else {
        LocalForwardView {
            bindings: seq![
                LocalBindingView {
                    bind_address: f.bind_address,
                    host_name: f.host_name,
                    bind_port: unwrap_or(f.bind_port, 0i32) as int,
                    port_name: f.port_name,
                    bind_local_socket: f.bind_local_socket,
                    no_authentication: unwrap_or(f.no_authentication, false),
                },
            ],
            bind_address: None,
            bind_port: None,
            port_name: None,
            bind_local_socket: None,
            host_name: None,
            no_authentication: None,
            ..f
        }
    }
}

/// Whether a remote rule uses any of the flat single-binding fields.
pub open spec fn remote_has_shorthand(f: RemoteForwardView) -> bool {
    ||| f.host is Some
    ||| f.host_port is Some
    ||| f.port_name is Some
    ||| f.local_socket is Some
    ||| f.http is Some
}

/// A remote rule with its flat fields promoted into a single binding, when
/// it has no bindings and uses the shorthand; otherwise unchanged.
pub open spec fn normalized_remote(f: RemoteForwardView) -> RemoteForwardView {
    if f.bindings.len() != 0 || !remote_has_shorthand(f) {
        f
    } else {
        RemoteForwardView {
            bindings: seq![
                RemoteBindingView {
                    host: f.host,
                    host_port: unwrap_or(f.host_port, 0i32) as int,
                    port_name: f.port_name,
                    local_socket: f.local_socket,
                    http: unwrap_or(f.http, false),
                    insecure: false,
                    path: None,
                },
            ],
            host: None,
            host_port: None,
            port_name: None,
            local_socket: None,
            http: None,
            ..f
        }
    }
}

impl LocalForward {
    /// Promote convenience single-binding fields into `bindings[0]` when
    /// `bindings` is empty. Called after deserialization to normalise configs
    /// that use the flat shorthand form.
    pub fn normalize(&mut self)
        ensures
            final(self)@ == normalized_local(old(self)@),
    {
        if self.bindings.len() != 0 {
            return;
        }
        let has_convenience = self.bind_address.is_some() || self.bind_port.is_some()
            || self.port_name.is_some() || self.bind_local_socket.is_some()
            || self.host_name.is_some() || self.no_authentication.is_some();
        if !has_convenience {
            return;
        }
        let b = LocalForwardBinding {
            bind_address: self.bind_address.take(),
            host_name: self.host_name.take(),
            bind_port: match self.bind_port.take() {
                Some(p) => p,
                None => 0,
            },
            port_name: self.port_name.take(),
            bind_local_socket: self.bind_local_socket.take(),
            no_authentication: match self.no_authentication.take() {
                Some(v) => v,
                None => false,
            },
        };
        let ghost bv = b@;
        self.bindings.push(b);
        assert(self@.bindings =~= seq![bv]);
    }
}

impl RemoteForward {
    /// Promote convenience single-binding fields into `bindings[0]` when
    /// `bindings` is empty.
    pub fn normalize(&mut self)
        ensures
            final(self)@ == normalized_remote(old(self)@),
    {
        if self.bindings.len() != 0 {
            return;
        }
        let has_convenience = self.host.is_some() || self.host_port.is_some()
            || self.port_name.is_some() || self.local_socket.is_some() || self.http.is_some();
        if !has_convenience {
            return;
        }
        let b = RemoteForwardBinding {
            host: self.host.take(),
            host_port: match self.host_port.take() {
                Some(p) => p,
                None => 0,
            },
            port_name: self.port_name.take(),
            local_socket: self.local_socket.take(),
            http: match self.http.take() {
                Some(v) => v,
                None => false,
            },
            insecure: false,
            path: None,
        };
        let ghost bv = b@;
        self.bindings.push(b);
        assert(self@.bindings =~= seq![bv]);
    }
}

// ---------------------------------------------------------------------------
// Laws
// ---------------------------------------------------------------------------

/// Merging a layer that sets nothing leaves a configuration unchanged.
pub proof fn law_merge_empty_layer(a: ConfigView)
    ensures
        merged(a, default_config()) == a,
{
    assert(merged(a, default_config()).local_forward =~= a.local_forward);
    assert(merged(a, default_config()).remote_forward =~= a.remote_forward);
}

/// Every value a layer sets is the value the merged configuration has.
pub proof fn law_merge_layer_wins(a: ConfigView, b: ConfigView)
    ensures
        b.address_family is Some ==> merged(a, b).address_family == b.address_family,
        b.azure_relay_connection_string is Some ==> merged(a, b).azure_relay_connection_string
            == b.azure_relay_connection_string,
        b.azure_relay_endpoint is Some ==> merged(a, b).azure_relay_endpoint
            == b.azure_relay_endpoint,
        b.connection_attempts is Some ==> merged(a, b).connection_attempts
            == b.connection_attempts,
        b.connect_timeout is Some ==> merged(a, b).connect_timeout == b.connect_timeout,
        b.log_level is Some ==> merged(a, b).log_level == b.log_level,
        b.gateway_ports is Some ==> merged(a, b).gateway_ports == b.gateway_ports,
        b.azure_relay_shared_access_key_name is Some ==> merged(
            a,
            b,
        ).azure_relay_shared_access_key_name == b.azure_relay_shared_access_key_name,
        b.azure_relay_shared_access_key is Some ==> merged(a, b).azure_relay_shared_access_key
            == b.azure_relay_shared_access_key,
        b.azure_relay_shared_access_signature is Some ==> merged(
            a,
            b,
        ).azure_relay_shared_access_signature == b.azure_relay_shared_access_signature,
        b.bind_address is Some ==> merged(a, b).bind_address == b.bind_address,
        b.exit_on_forward_failure is Some ==> merged(a, b).exit_on_forward_failure
            == b.exit_on_forward_failure,
        b.keep_alive_interval is Some ==> merged(a, b).keep_alive_interval
            == b.keep_alive_interval,
        b.log_file_name is Some ==> merged(a, b).log_file_name == b.log_file_name,
        merged(a, b).local_forward.len() >= b.local_forward.len(),
        merged(a, b).local_forward.skip(
            merged(a, b).local_forward.len() - b.local_forward.len(),
        ) == b.local_forward,
        merged(a, b).remote_forward.len() >= b.remote_forward.len(),
        merged(a, b).remote_forward.skip(
            merged(a, b).remote_forward.len() - b.remote_forward.len(),
        ) == b.remote_forward,
{
    let m = merged(a, b);
    assert(m.local_forward.skip(m.local_forward.len() - b.local_forward.len())
        =~= b.local_forward);
    assert(m.remote_forward.skip(m.remote_forward.len() - b.remote_forward.len())
        =~= b.remote_forward);
}

/// The rules of earlier layers survive a layer that does not clear them:
/// they come first, in order, and the new layer's rules follow, so no rule
/// of either is lost. A layer that clears the forwardings leaves only its
/// own rules.
pub proof fn law_merge_keeps_earlier_rules(a: ConfigView, b: ConfigView)
    ensures
        b.clear_all_forwardings != Some(true) ==> {
            &&& merged(a, b).local_forward.len() == a.local_forward.len() + b.local_forward.len()
            &&& merged(a, b).local_forward.take(a.local_forward.len() as int) == a.local_forward
            &&& merged(a, b).remote_forward.len() == a.remote_forward.len()
                + b.remote_forward.len()
            &&& merged(a, b).remote_forward.take(a.remote_forward.len() as int)
                == a.remote_forward
        },
        b.clear_all_forwardings == Some(true) ==> {
            &&& merged(a, b).local_forward == b.local_forward
            &&& merged(a, b).remote_forward == b.remote_forward
        },
{
    let m = merged(a, b);
    if b.clear_all_forwardings == Some(true) {
        assert(m.local_forward =~= b.local_forward);
        assert(m.remote_forward =~= b.remote_forward);
    } else {
        assert(m.local_forward.take(a.local_forward.len() as int) =~= a.local_forward);
        assert(m.remote_forward.take(a.remote_forward.len() as int) =~= a.remote_forward);
    }
}

/// The empty configuration passes validation.
pub proof fn law_default_config_valid()
    ensures
        config_valid(default_config()),
{
}

/// Normalising a local rule twice is the same as normalising it once.
pub proof fn law_normalize_local_idempotent(f: LocalForwardView)
    ensures
        normalized_local(normalized_local(f)) == normalized_local(f),
{
}

/// Normalising a remote rule twice is the same as normalising it once.
pub proof fn law_normalize_remote_idempotent(f: RemoteForwardView)
    ensures
        normalized_remote(normalized_remote(f)) == normalized_remote(f),
{
}

/// Normalisation keeps the relay name and never drops a binding.
pub proof fn law_normalize_keeps_rule(f: LocalForwardView, g: RemoteForwardView)
    ensures
        normalized_local(f).relay_name == f.relay_name,
        normalized_local(f).bindings.len() >= f.bindings.len(),
        normalized_remote(g).relay_name == g.relay_name,
        normalized_remote(g).bindings.len() >= g.bindings.len(),
{
}

} // verus!
