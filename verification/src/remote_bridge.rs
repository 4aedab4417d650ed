//! The routing of relayed connections to the forwarders of a remote
//! bridge: the table of forwarders by port name, and the preamble checks
//! that pick one of them or refuse the connection.

use vstd::prelude::*;

use crate::preamble::ConnectionMode;
use crate::text::{chars_eq_str, chars_of, parse_i32, parse_i32_spec};

verus! {

/// The kind of a remote forwarder.
#[derive(Debug, Clone, Copy, PartialEq, Eq, Structural)]
pub enum ForwarderKind {
    Tcp,
    Udp,
    Http,
    Socket,
}

/// A forwarder of a remote bridge, under the port name it serves.
pub struct Route<T> {
    pub port_name: String,
    pub kind: ForwarderKind,
    pub target: T,
}

/// The forwarders of a remote bridge, at most one per port name.
pub struct ForwarderTable<T> {
    routes: Vec<Route<T>>,
}

/// The port names and kinds of a sequence of routes.
pub open spec fn route_views<T>(rs: Seq<Route<T>>) -> Seq<(Seq<char>, ForwarderKind)> {
    rs.map_values(|r: Route<T>| (r.port_name@, r.kind))
}

/// No port name occurs twice.
pub open spec fn distinct_names(v: Seq<(Seq<char>, ForwarderKind)>) -> bool {
    forall|i: int, j: int|
        0 <= i < v.len() && 0 <= j < v.len() && i != j ==> #[trigger] v[i].0 != #[trigger] v[j].0
}

/// The position of the forwarder for a port name, if there is one.
pub open spec fn position_of(v: Seq<(Seq<char>, ForwarderKind)>, name: Seq<char>) -> Option<int> {
    if exists|i: int| 0 <= i < v.len() && #[trigger] v[i].0 == name {
        Some(choose|i: int| 0 <= i < v.len() && #[trigger] v[i].0 == name)
    } else {
        None
    }
}

/// The kind of the forwarder for a port name, if there is one.
pub open spec fn kind_of(v: Seq<(Seq<char>, ForwarderKind)>, name: Seq<char>) -> Option<
    ForwarderKind,
> {
    match position_of(v, name) {
        Some(i) => Some(v[i].1),
        None => None,
    }
}

/// The table after a forwarder is added under a port name: it takes the
/// place of the one there, or comes last.
pub open spec fn inserted(
    v: Seq<(Seq<char>, ForwarderKind)>,
    name: Seq<char>,
    kind: ForwarderKind,
) -> Seq<(Seq<char>, ForwarderKind)> {
    match position_of(v, name) {
        Some(i) => v.update(i, (name, kind)),
        None => v.push((name, kind)),
    }
}

impl<T> View for ForwarderTable<T> {
    type V = Seq<(Seq<char>, ForwarderKind)>;

    closed spec fn view(&self) -> Seq<(Seq<char>, ForwarderKind)> {
        route_views(self.routes@)
    }
}

impl<T> ForwarderTable<T> {
    /// Well-formedness: no port name occurs twice.
    pub closed spec fn wf(&self) -> bool {
        distinct_names(self@)
    }

    /// The forwarders themselves, in the table's order.
    pub closed spec fn targets(&self) -> Seq<T> {
        self.routes@.map_values(|r: Route<T>| r.target)
    }

    /// There is one forwarder per port name of the view.
    pub proof fn lemma_targets_len(&self)
        ensures
            self.targets().len() == self@.len(),
    {
    }

    /// An empty table.
    pub fn new() -> (r: Self)
        ensures
            r.wf(),
            r@ == Seq::<(Seq<char>, ForwarderKind)>::empty(),
            r.targets() == Seq::<T>::empty(),
    {
        let r = ForwarderTable { routes: Vec::new() };
        assert(r@ =~= Seq::<(Seq<char>, ForwarderKind)>::empty());
        assert(r.targets() =~= Seq::<T>::empty());
        r
    }

    /// The number of forwarders.
    pub fn len(&self) -> (r: usize)
        ensures
            r == self@.len(),
    {
        self.routes.len()
    }

    /// Whether the table has no forwarder.
    pub fn is_empty(&self) -> (r: bool)
        ensures
            r == (self@.len() == 0),
    {
        self.routes.len() == 0
    }

    /// The forwarder at a position.
    pub fn target(&self, i: usize) -> (r: &T)
        requires
            i < self@.len(),
        ensures
            *r == self.targets()[i as int],
    {
        &self.routes[i].target
    }

    /// The position of the forwarder for a port name, if there is one.
    pub fn position(&self, name: &str) -> (r: Option<usize>)
        requires
            self.wf(),
        ensures
            match r {
                Some(i) => position_of(self@, name@) == Some(i as int),
                None => position_of(self@, name@) is None,
            },
    {
        let ghost v = self@;
        let mut j: usize = 0;
        while j < self.routes.len()
            invariant
                j <= self.routes@.len(),
                v == self@,
                v == route_views(self.routes@),
                distinct_names(v),
                forall|k: int| 0 <= k < j ==> (#[trigger] v[k]).0 != name@,
            decreases self.routes@.len() - j,
        {
            let pn = chars_of(self.routes[j].port_name.as_str());
            if chars_eq_str(pn.as_slice(), name) {
                proof {
                    assert(v[j as int].0 == name@);
                    let i = choose|i: int| 0 <= i < v.len() && #[trigger] v[i].0 == name@;
                    assert(i == j);
                }
                return Some(j);
            }
            j = j + 1;
        }
        None
    }

    /// Adds a forwarder under a port name, replacing the one there.
    pub fn insert(&mut self, port_name: String, kind: ForwarderKind, target: T)
        requires
            old(self).wf(),
        ensures
            final(self).wf(),
            final(self)@ == inserted(old(self)@, port_name@, kind),
            final(self).targets() == match position_of(old(self)@, port_name@) {
                Some(i) => old(self).targets().update(i, target),
                None => old(self).targets().push(target),
            },
    {
        let ghost v = self@;
        let ghost ts = self.targets();
        let ghost name = port_name@;
        let ghost t = target;
        match self.position(port_name.as_str()) {
            Some(i) => {
                let _old = self.routes.remove(i);
                self.routes.insert(i, Route { port_name, kind, target });
                proof {
                    assert(route_views(self.routes@) =~= v.update(i as int, (name, kind)));
                    assert(self.targets() =~= ts.update(i as int, t));
                }
            },
            None => {
                self.routes.push(Route { port_name, kind, target });
                proof {
                    assert forall|k: int| 0 <= k < v.len() implies #[trigger] v[k].0 != name by {}
                    assert(route_views(self.routes@) =~= v.push((name, kind)));
                    assert(self.targets() =~= ts.push(t));
                }
            },
        }
    }
}

/// After a forwarder is added under a port name, that name leads to it and
/// every other name leads where it led before.
pub proof fn law_insert_then_lookup(
    v: Seq<(Seq<char>, ForwarderKind)>,
    name: Seq<char>,
    kind: ForwarderKind,
    other: Seq<char>,
)
    requires
        distinct_names(v),
    ensures
        distinct_names(inserted(v, name, kind)),
        kind_of(inserted(v, name, kind), name) == Some(kind),
        other != name ==> kind_of(inserted(v, name, kind), other) == kind_of(v, other),
{
    let w = inserted(v, name, kind);
    match position_of(v, name) {
        Some(i) => {
            assert(w[i].0 == name);
        },
        None => {
            assert(w[v.len() as int].0 == name);
        },
    }
    let p = choose|k: int| 0 <= k < w.len() && #[trigger] w[k].0 == name;
    assert(p == position_of(w, name).unwrap());
    if other != name {
        if exists|k: int| 0 <= k < v.len() && #[trigger] v[k].0 == other {
            let q = choose|k: int| 0 <= k < v.len() && #[trigger] v[k].0 == other;
            assert(w[q].0 == other);
            let q2 = choose|k: int| 0 <= k < w.len() && #[trigger] w[k].0 == other;
            assert(q == q2);
        } else {
            assert forall|k: int| 0 <= k < w.len() implies #[trigger] w[k].0 != other by {
                if k < v.len() {
                }
            }
        }
    }
}

/// What the bridge does with a relayed connection.
#[derive(Debug, Clone, Copy, PartialEq, Eq, Structural)]
pub enum Dispatch {
    /// Hand it to the forwarder at this position of the table.
    Forward(usize),
    /// Answer the preamble with this error code and drop the connection.
    Refuse(u8),
}

/// The forwarder a connection asking for `port_name` goes to: the one of
/// that name, else the only one when there is exactly one and the name is
/// a number.
pub open spec fn selected(v: Seq<(Seq<char>, ForwarderKind)>, port_name: Seq<char>) -> Option<int> {
    match position_of(v, port_name) {
        Some(i) => Some(i),
        None => if v.len() == 1 && parse_i32_spec(port_name) is Some {
            Some(0)
        } else {
            None
        },
    }
}

/// The answer to a connection: refused with code 0 when no forwarder is
/// selected or the selected one serves HTTP, with code 1 when a UDP
/// forwarder is asked for a stream, with code 255 when a stream forwarder
/// is asked for datagrams, and forwarded otherwise.
pub open spec fn dispatch_spec(
    v: Seq<(Seq<char>, ForwarderKind)>,
    port_name: Seq<char>,
    mode: ConnectionMode,
) -> Dispatch {
    match selected(v, port_name) {
        None => Dispatch::Refuse(0),
        Some(i) => match v[i].1 {
            ForwarderKind::Http => Dispatch::Refuse(0),
            ForwarderKind::Udp => match mode {
                ConnectionMode::Datagram => Dispatch::Forward(i as usize),
                ConnectionMode::Stream => Dispatch::Refuse(1),
            },
            _ => match mode {
                ConnectionMode::Stream => Dispatch::Forward(i as usize),
                ConnectionMode::Datagram => Dispatch::Refuse(255),
            },
        },
    }
}

/// Picks the forwarder for a relayed connection from its preamble, or the
/// error code to refuse it with:
/// - If only 1 forwarder and portName is a parseable integer, use that forwarder
///   regardless of portName (single-forwarder fallback)
/// - Error code 0 for unknown port name
/// - Error code 1 for UDP forwarder receiving a stream-mode connection
/// - Error code 255 for stream forwarder receiving a datagram-mode connection
pub fn dispatch_connection<T>(table: &ForwarderTable<T>, port_name: &str, mode: ConnectionMode) -> (r:
    Dispatch)
    requires
        table.wf(),
    ensures
        r == dispatch_spec(table@, port_name@, mode),
        r matches Dispatch::Forward(i) ==> i < table@.len(),
{
    let sel = match table.position(port_name) {
        Some(i) => Some(i),
        None => {
            let cs = chars_of(port_name);
            if table.len() == 1 && parse_i32(cs.as_slice()).is_some() {
                Some(0)
            } else {
                None
            }
        },
    };
    proof {
        if let Some(i) = position_of(table@, port_name@) {
            assert(0 <= i < table@.len());
        }
    }
    match sel {
        None => Dispatch::Refuse(0),
        Some(i) => {
            let kind = table.kind_at(i);
            match kind {
                ForwarderKind::Http => Dispatch::Refuse(0),
                ForwarderKind::Udp => match mode {
                    ConnectionMode::Datagram => Dispatch::Forward(i),
                    ConnectionMode::Stream => Dispatch::Refuse(1),
                },
                _ => match mode {
                    ConnectionMode::Stream => Dispatch::Forward(i),
                    ConnectionMode::Datagram => Dispatch::Refuse(255),
                },
            }
        },
    }
}

impl<T> ForwarderTable<T> {
    /// The kind of the forwarder at a position.
    pub fn kind_at(&self, i: usize) -> (r: ForwarderKind)
        requires
            i < self@.len(),
        ensures
            r == self@[i as int].1,
    {
        self.routes[i].kind
    }
}

/// The HTTP forwarder that serves request number `counter`: they take turns.
pub fn round_robin(counter: usize, count: usize) -> (r: usize)
    requires
        count > 0,
    ensures
        r == counter % count,
        r < count,
{
    counter % count
}

} // verus!
