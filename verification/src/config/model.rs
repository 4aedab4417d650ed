//! Configuration types, their mathematical views, defaults and copies.

use vstd::prelude::*;

verus! {

/// The view of an optional string: the characters it holds, if any.
pub open spec fn opt_str(o: Option<String>) -> Option<Seq<char>> {
    match o {
        Some(s) => Some(s@),
        None => None,
    }
}

/// Copies an optional string.
pub fn copy_opt_string(o: &Option<String>) -> (r: Option<String>)
    ensures
        opt_str(r) == opt_str(*o),
{
    match o {
        Some(s) => Some(s.clone()),
        None => None,
    }
}

// ---------------------------------------------------------------------------
// Errors
// ---------------------------------------------------------------------------

/// Errors that can occur during configuration validation and parsing.
#[derive(Debug)]
pub enum ConfigError {
    /// A configuration value is out of its allowed range.
    Validation { file: String, message: String },
    /// A forwarding expression could not be parsed.
    Parse(String),
}

impl ConfigError {
    /// The human-readable text of the error, as its `Display` shows it.
    pub fn message(&self) -> (r: String)
        ensures
            r@ == match self {
                ConfigError::Validation { file, message } => "Configuration error in "@ + file@
                    + ": "@ + message@,
                ConfigError::Parse(m) => "Parse error: "@ + m@,
            },
    {
        match self {
            ConfigError::Validation { file, message } => {
                let mut v: Vec<char> = Vec::new();
                crate::text::push_str(&mut v, "Configuration error in ");
                crate::text::push_str(&mut v, file.as_str());
                crate::text::push_str(&mut v, ": ");
                crate::text::push_str(&mut v, message.as_str());
                crate::text::string_of(v.as_slice())
            },
            ConfigError::Parse(m) => {
                let mut v: Vec<char> = Vec::new();
                crate::text::push_str(&mut v, "Parse error: ");
                crate::text::push_str(&mut v, m.as_str());
                crate::text::string_of(v.as_slice())
            },
        }
    }
}

// ---------------------------------------------------------------------------
// LocalForwardBinding
// ---------------------------------------------------------------------------

/// A binding for a local forwarding rule.
#[derive(Debug)]
pub struct LocalForwardBinding {
    pub bind_address: Option<String>,
    pub host_name: Option<String>,
    /// Port number. Negative = UDP.
    pub bind_port: i32,
    pub port_name: Option<String>,
    pub bind_local_socket: Option<String>,
    pub no_authentication: bool,
}

/// The view of a [`LocalForwardBinding`].
pub struct LocalBindingView {
    pub bind_address: Option<Seq<char>>,
    pub host_name: Option<Seq<char>>,
    pub bind_port: int,
    pub port_name: Option<Seq<char>>,
    pub bind_local_socket: Option<Seq<char>>,
    pub no_authentication: bool,
}

impl View for LocalForwardBinding {
    type V = LocalBindingView;

    open spec fn view(&self) -> LocalBindingView {
        LocalBindingView {
            bind_address: opt_str(self.bind_address),
            host_name: opt_str(self.host_name),
            bind_port: self.bind_port as int,
            port_name: opt_str(self.port_name),
            bind_local_socket: opt_str(self.bind_local_socket),
            no_authentication: self.no_authentication,
        }
    }
}

/// A local binding with every field unset.
pub open spec fn empty_local_binding() -> LocalBindingView {
    LocalBindingView {
        bind_address: None,
        host_name: None,
        bind_port: 0,
        port_name: None,
        bind_local_socket: None,
        no_authentication: false,
    }
}

impl LocalForwardBinding {
    /// A binding with every field unset.
    pub fn empty() -> (r: Self)
        ensures
            r@ == empty_local_binding(),
    {
        LocalForwardBinding {
            bind_address: None,
            host_name: None,
            bind_port: 0,
            port_name: None,
            bind_local_socket: None,
            no_authentication: false,
        }
    }

    /// A field-by-field copy.
    pub fn copy(&self) -> (r: Self)
        ensures
            r@ == self@,
    {
        LocalForwardBinding {
            bind_address: copy_opt_string(&self.bind_address),
            host_name: copy_opt_string(&self.host_name),
            bind_port: self.bind_port,
            port_name: copy_opt_string(&self.port_name),
            bind_local_socket: copy_opt_string(&self.bind_local_socket),
            no_authentication: self.no_authentication,
        }
    }
}

impl Default for LocalForwardBinding {
    fn default() -> (r: Self)
        ensures
            r@ == empty_local_binding(),
    {
        Self::empty()
    }
}

impl Clone for LocalForwardBinding {
    fn clone(&self) -> (r: Self)
        ensures
            r@ == self@,
    {
        self.copy()
    }
}

/// The views of a sequence of local bindings.
pub open spec fn local_binding_views(v: Seq<LocalForwardBinding>) -> Seq<LocalBindingView> {
    v.map_values(|b: LocalForwardBinding| b@)
}

// ---------------------------------------------------------------------------
// LocalForward
// ---------------------------------------------------------------------------

/// A local forwarding rule.
#[derive(Debug)]
pub struct LocalForward {
    pub relay_name: String,
    pub connection_string: Option<String>,
    pub bindings: Vec<LocalForwardBinding>,
    // Convenience single-binding fields (proxy to bindings[0])
    pub bind_address: Option<String>,
    pub bind_port: Option<i32>,
    pub port_name: Option<String>,
    pub bind_local_socket: Option<String>,
    pub host_name: Option<String>,
    pub no_authentication: Option<bool>,
}

/// The view of a [`LocalForward`].
pub struct LocalForwardView {
    pub relay_name: Seq<char>,
    pub connection_string: Option<Seq<char>>,
    pub bindings: Seq<LocalBindingView>,
    pub bind_address: Option<Seq<char>>,
    pub bind_port: Option<i32>,
    pub port_name: Option<Seq<char>>,
    pub bind_local_socket: Option<Seq<char>>,
    pub host_name: Option<Seq<char>>,
    pub no_authentication: Option<bool>,
}

impl View for LocalForward {
    type V = LocalForwardView;

    open spec fn view(&self) -> LocalForwardView {
        LocalForwardView {
            relay_name: self.relay_name@,
            connection_string: opt_str(self.connection_string),
            bindings: local_binding_views(self.bindings@),
            bind_address: opt_str(self.bind_address),
            bind_port: self.bind_port,
            port_name: opt_str(self.port_name),
            bind_local_socket: opt_str(self.bind_local_socket),
            host_name: opt_str(self.host_name),
            no_authentication: self.no_authentication,
        }
    }
}

/// A rule for the given relay and bindings, with nothing else set.
pub open spec fn local_forward_of(
    relay_name: Seq<char>,
    bindings: Seq<LocalBindingView>,
) -> LocalForwardView {
    LocalForwardView {
        relay_name,
        connection_string: None,
        bindings,
        bind_address: None,
        bind_port: None,
        port_name: None,
        bind_local_socket: None,
        host_name: None,
        no_authentication: None,
    }
}

impl LocalForward {
    /// A field-by-field copy.
    pub fn copy(&self) -> (r: Self)
        ensures
            r@ == self@,
    {
        let mut bindings: Vec<LocalForwardBinding> = Vec::new();
        let mut i: usize = 0;
        while i < self.bindings.len()
            invariant
                i <= self.bindings@.len(),
                bindings@.len() == i,
                forall|j: int| 0 <= j < i ==> (#[trigger] bindings@[j])@ == self.bindings@[j]@,
            decreases self.bindings@.len() - i,
        {
            let b = self.bindings[i].copy();
            bindings.push(b);
            i = i + 1;
        }
        assert(local_binding_views(bindings@) =~= local_binding_views(self.bindings@));
        LocalForward {
            relay_name: self.relay_name.clone(),
            connection_string: copy_opt_string(&self.connection_string),
            bindings,
            bind_address: copy_opt_string(&self.bind_address),
            bind_port: self.bind_port,
            port_name: copy_opt_string(&self.port_name),
            bind_local_socket: copy_opt_string(&self.bind_local_socket),
            host_name: copy_opt_string(&self.host_name),
            no_authentication: self.no_authentication,
        }
    }
}

impl Default for LocalForward {
    fn default() -> (r: Self)
        ensures
            r@ == local_forward_of(Seq::empty(), Seq::empty()),
    {
        let r = LocalForward {
            relay_name: String::new(),
            connection_string: None,
            bindings: Vec::new(),
            bind_address: None,
            bind_port: None,
            port_name: None,
            bind_local_socket: None,
            host_name: None,
            no_authentication: None,
        };
        assert(local_binding_views(r.bindings@) =~= Seq::<LocalBindingView>::empty());
        r
    }
}

impl Clone for LocalForward {
    fn clone(&self) -> (r: Self)
        ensures
            r@ == self@,
    {
        self.copy()
    }
}

/// The views of a sequence of local forwarding rules.
pub open spec fn local_forward_views(v: Seq<LocalForward>) -> Seq<LocalForwardView> {
    v.map_values(|f: LocalForward| f@)
}

// ---------------------------------------------------------------------------
// RemoteForwardBinding
// ---------------------------------------------------------------------------

/// A binding for a remote forwarding rule.
#[derive(Debug)]
pub struct RemoteForwardBinding {
    pub host: Option<String>,
    pub host_port: i32,
    pub port_name: Option<String>,
    pub local_socket: Option<String>,
    pub http: bool,
    pub insecure: bool,
    pub path: Option<String>,
}

/// The view of a [`RemoteForwardBinding`].
pub struct RemoteBindingView {
    pub host: Option<Seq<char>>,
    pub host_port: int,
    pub port_name: Option<Seq<char>>,
    pub local_socket: Option<Seq<char>>,
    pub http: bool,
    pub insecure: bool,
    pub path: Option<Seq<char>>,
}

impl View for RemoteForwardBinding {
    type V = RemoteBindingView;

    open spec fn view(&self) -> RemoteBindingView {
        RemoteBindingView {
            host: opt_str(self.host),
            host_port: self.host_port as int,
            port_name: opt_str(self.port_name),
            local_socket: opt_str(self.local_socket),
            http: self.http,
            insecure: self.insecure,
            path: opt_str(self.path),
        }
    }
}

/// A remote binding with every field unset.
pub open spec fn empty_remote_binding() -> RemoteBindingView {
    RemoteBindingView {
        host: None,
        host_port: 0,
        port_name: None,
        local_socket: None,
        http: false,
        insecure: false,
        path: None,
    }
}

impl RemoteForwardBinding {
    /// A binding with every field unset.
    pub fn empty() -> (r: Self)
        ensures
            r@ == empty_remote_binding(),
    {
        RemoteForwardBinding {
            host: None,
            host_port: 0,
            port_name: None,
            local_socket: None,
            http: false,
            insecure: false,
            path: None,
        }
    }

    /// A field-by-field copy.
    pub fn copy(&self) -> (r: Self)
        ensures
            r@ == self@,
    {
        RemoteForwardBinding {
            host: copy_opt_string(&self.host),
            host_port: self.host_port,
            port_name: copy_opt_string(&self.port_name),
            local_socket: copy_opt_string(&self.local_socket),
            http: self.http,
            insecure: self.insecure,
            path: copy_opt_string(&self.path),
        }
    }
}

impl Default for RemoteForwardBinding {
    fn default() -> (r: Self)
        ensures
            r@ == empty_remote_binding(),
    {
        Self::empty()
    }
}

impl Clone for RemoteForwardBinding {
    fn clone(&self) -> (r: Self)
        ensures
            r@ == self@,
    {
        self.copy()
    }
}

/// The views of a sequence of remote bindings.
pub open spec fn remote_binding_views(v: Seq<RemoteForwardBinding>) -> Seq<RemoteBindingView> {
    v.map_values(|b: RemoteForwardBinding| b@)
}

// ---------------------------------------------------------------------------
// RemoteForward
// ---------------------------------------------------------------------------

/// A remote forwarding rule.
#[derive(Debug)]
pub struct RemoteForward {
    pub relay_name: String,
    pub connection_string: Option<String>,
    pub bindings: Vec<RemoteForwardBinding>,
    // Convenience fields
    pub host: Option<String>,
    pub host_port: Option<i32>,
    pub port_name: Option<String>,
    pub local_socket: Option<String>,
    pub http: Option<bool>,
}

/// The view of a [`RemoteForward`].
pub struct RemoteForwardView {
    pub relay_name: Seq<char>,
    pub connection_string: Option<Seq<char>>,
    pub bindings: Seq<RemoteBindingView>,
    pub host: Option<Seq<char>>,
    pub host_port: Option<i32>,
    pub port_name: Option<Seq<char>>,
    pub local_socket: Option<Seq<char>>,
    pub http: Option<bool>,
}

impl View for RemoteForward {
    type V = RemoteForwardView;

    open spec fn view(&self) -> RemoteForwardView {
        RemoteForwardView {
            relay_name: self.relay_name@,
            connection_string: opt_str(self.connection_string),
            bindings: remote_binding_views(self.bindings@),
            host: opt_str(self.host),
            host_port: self.host_port,
            port_name: opt_str(self.port_name),
            local_socket: opt_str(self.local_socket),
            http: self.http,
        }
    }
}

/// A rule for the given relay and bindings, with nothing else set.
pub open spec fn remote_forward_of(
    relay_name: Seq<char>,
    bindings: Seq<RemoteBindingView>,
) -> RemoteForwardView {
    RemoteForwardView {
        relay_name,
        connection_string: None,
        bindings,
        host: None,
        host_port: None,
        port_name: None,
        local_socket: None,
        http: None,
    }
}

impl RemoteForward {
    /// A field-by-field copy.
    pub fn copy(&self) -> (r: Self)
        ensures
            r@ == self@,
    {
        let mut bindings: Vec<RemoteForwardBinding> = Vec::new();
        let mut i: usize = 0;
        while i < self.bindings.len()
            invariant
                i <= self.bindings@.len(),
                bindings@.len() == i,
                forall|j: int| 0 <= j < i ==> (#[trigger] bindings@[j])@ == self.bindings@[j]@,
            decreases self.bindings@.len() - i,
        {
            let b = self.bindings[i].copy();
            bindings.push(b);
            i = i + 1;
        }
        assert(remote_binding_views(bindings@) =~= remote_binding_views(self.bindings@));
        RemoteForward {
            relay_name: self.relay_name.clone(),
            connection_string: copy_opt_string(&self.connection_string),
            bindings,
            host: copy_opt_string(&self.host),
            host_port: self.host_port,
            port_name: copy_opt_string(&self.port_name),
            local_socket: copy_opt_string(&self.local_socket),
            http: self.http,
        }
    }
}

impl Default for RemoteForward {
    fn default() -> (r: Self)
        ensures
            r@ == remote_forward_of(Seq::empty(), Seq::empty()),
    {
        let r = RemoteForward {
            relay_name: String::new(),
            connection_string: None,
            bindings: Vec::new(),
            host: None,
            host_port: None,
            port_name: None,
            local_socket: None,
            http: None,
        };
        assert(remote_binding_views(r.bindings@) =~= Seq::<RemoteBindingView>::empty());
        r
    }
}

impl Clone for RemoteForward {
    fn clone(&self) -> (r: Self)
        ensures
            r@ == self@,
    {
        self.copy()
    }
}

/// The views of a sequence of remote forwarding rules.
pub open spec fn remote_forward_views(v: Seq<RemoteForward>) -> Seq<RemoteForwardView> {
    v.map_values(|f: RemoteForward| f@)
}

} // verus!
