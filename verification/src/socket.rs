//! Unix-domain-socket forwarding rules.
//!
//! The socket path is held as text; the host turns it into a path when it
//! binds or connects.

use vstd::prelude::*;

verus! {

/// Unix socket local forward bridge: listens on a Unix domain socket and
/// forwards each connection over the relay.
pub struct SocketLocalForwardBridge {
    socket_path: String,
    relay_name: String,
    port_name: String,
}

impl SocketLocalForwardBridge {
    /// The socket path of the bridge.
    pub closed spec fn path_spec(&self) -> Seq<char> {
        self.socket_path@
    }

    /// The relay name of the bridge.
    pub closed spec fn relay_spec(&self) -> Seq<char> {
        self.relay_name@
    }

    /// The port name of the bridge.
    pub closed spec fn port_spec(&self) -> Seq<char> {
        self.port_name@
    }

    pub fn new(socket_path: &str, relay_name: String, port_name: String) -> (r: Self)
        ensures
            r.path_spec() == socket_path@,
            r.relay_spec() == relay_name@,
            r.port_spec() == port_name@,
    {
        SocketLocalForwardBridge { socket_path: socket_path.to_owned(), relay_name, port_name }
    }

    pub fn socket_path(&self) -> (r: &str)
        ensures
            r@ == self.path_spec(),
    {
        self.socket_path.as_str()
    }

    pub fn relay_name(&self) -> (r: &str)
        ensures
            r@ == self.relay_spec(),
    {
        self.relay_name.as_str()
    }

    pub fn port_name(&self) -> (r: &str)
        ensures
            r@ == self.port_spec(),
    {
        self.port_name.as_str()
    }
}

/// Unix socket remote forwarder: connects each relayed connection to a
/// Unix domain socket.
pub struct SocketRemoteForwarder {
    socket_path: String,
    port_name: String,
}

impl SocketRemoteForwarder {
    /// The socket path of the forwarder.
    pub closed spec fn path_spec(&self) -> Seq<char> {
        self.socket_path@
    }

    /// The port name of the forwarder.
    pub closed spec fn port_spec(&self) -> Seq<char> {
        self.port_name@
    }

    pub fn new(socket_path: &str, port_name: String) -> (r: Self)
        ensures
            r.path_spec() == socket_path@,
            r.port_spec() == port_name@,
    {
        SocketRemoteForwarder { socket_path: socket_path.to_owned(), port_name }
    }

    pub fn socket_path(&self) -> (r: &str)
        ensures
            r@ == self.path_spec(),
    {
        self.socket_path.as_str()
    }

    pub fn port_name(&self) -> (r: &str)
        ensures
            r@ == self.port_spec(),
    {
        self.port_name.as_str()
    }
}

} // verus!
