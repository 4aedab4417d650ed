//! Decisions of the listener's control loop: its status and the backoff
//! between reconnection attempts.

use vstd::prelude::*;

use crate::relay::protocol::commands::{AcceptCommand, ListenerCommand, RequestCommand};
use crate::text::{chars_of, has_prefix, starts_with, string_of, to_vec};

verus! {

/// Reconnect backoff sequence, in seconds.
pub const RECONNECT_DELAYS: [u64; 6] = [0, 1, 2, 5, 10, 30];

/// Connection status events.
#[derive(Debug, Clone, Copy, PartialEq, Eq, Structural)]
pub enum ConnectionStatus {
    Connecting,
    Online,
    Offline,
}

/// The backoff sequence, in seconds.
pub open spec fn delay_table() -> Seq<u64> {
    seq![0u64, 1, 2, 5, 10, 30]
}

/// The delay before reconnection attempt `index` (counted from the last
/// successful connection): the table's entry, or its last one past its end.
pub open spec fn reconnect_delay_spec(index: nat) -> u64 {
    if index < 6 {
        delay_table()[index as int]
    } else {
        delay_table()[5]
    }
}

/// The delay, in seconds, before reconnection attempt `index`.
pub fn reconnect_delay_secs(index: usize) -> (r: u64)
    ensures
        r == reconnect_delay_spec(index as nat),
{
    let i = if index < 5 {
        index
    } else {
        5
    };
    let d = RECONNECT_DELAYS[i];
    assert(RECONNECT_DELAYS@ == delay_table());
    d
}

/// The control loop's reconnection state.
pub struct Backoff {
    /// Reconnection attempts since the last successful connection.
    pub reconnect_index: usize,
}

impl Backoff {
    /// A loop that has not failed yet.
    pub fn new() -> (r: Self)
        ensures
            r.reconnect_index == 0,
    {
        Backoff { reconnect_index: 0 }
    }

    /// The control channel connected: the backoff starts over and the
    /// listener is online.
    pub fn on_connected(&mut self) -> (status: ConnectionStatus)
        ensures
            final(self).reconnect_index == 0,
            status == ConnectionStatus::Online,
    {
        self.reconnect_index = 0;
        ConnectionStatus::Online
    }

    /// The control channel failed or closed while the listener is open: it
    /// is offline, and waits the returned number of seconds before the next
    /// attempt.
    pub fn on_disconnected(&mut self) -> (r: (ConnectionStatus, u64))
        requires
            old(self).reconnect_index < usize::MAX,
        ensures
            r.0 == ConnectionStatus::Offline,
            r.1 == reconnect_delay_spec(old(self).reconnect_index as nat),
            final(self).reconnect_index == old(self).reconnect_index + 1,
    {
        let d = reconnect_delay_secs(self.reconnect_index);
        self.reconnect_index = self.reconnect_index + 1;
        (ConnectionStatus::Offline, d)
    }
}

/// The backoff never shrinks between consecutive failures, never exceeds
/// thirty seconds, and the first retry after a success is immediate.
pub proof fn law_backoff_grows_to_cap(i: nat, j: nat)
    requires
        i <= j,
    ensures
        reconnect_delay_spec(i) <= reconnect_delay_spec(j),
        reconnect_delay_spec(j) <= 30,
        reconnect_delay_spec(0) == 0,
        j >= 5 ==> reconnect_delay_spec(j) == 30,
{
}

/// Keep-alive interval of the control channel, in seconds (3.5 min).
pub const DEFAULT_KEEP_ALIVE_SECS: u64 = 210;

/// How long before expiry a token is renewed, in seconds (5 min).
pub const TOKEN_RENEWAL_MARGIN_SECS: u64 = 300;

/// A time or duration in nanoseconds.
pub open spec fn nanos_of(secs: int, nanos: int) -> int {
    secs * 1_000_000_000 + nanos
}

/// How long the renewal loop sleeps after obtaining a token that expires at
/// `expires_at` (whole seconds) when it is `now`: until five minutes before
/// expiry, an hour's worth when the expiry has passed, and thirty seconds
/// when that leaves nothing.
pub open spec fn renewal_sleep_spec(expires_at: int, now: int) -> int {
    let until = if expires_at >= now {
        expires_at - now
    } else {
        nanos_of(3600, 0)
    };
    let rest = if until > nanos_of(TOKEN_RENEWAL_MARGIN_SECS as int, 0) {
        until - nanos_of(TOKEN_RENEWAL_MARGIN_SECS as int, 0)
    } else {
        0
    };
    if rest == 0 {
        nanos_of(30, 0)
    } else {
        rest
    }
}

/// The sleep of the token renewal loop, as seconds and nanoseconds.
pub fn renewal_sleep(expires_at_secs: u64, now_secs: u64, now_nanos: u32) -> (r: (u64, u32))
    requires
        now_nanos < 1_000_000_000,
    ensures
        r.1 < 1_000_000_000,
        nanos_of(r.0 as int, r.1 as int) == renewal_sleep_spec(
            nanos_of(expires_at_secs as int, 0),
            nanos_of(now_secs as int, now_nanos as int),
        ),
{
    let (us, un): (u64, u32) = if expires_at_secs > now_secs || (expires_at_secs == now_secs
        && now_nanos == 0) {
        if now_nanos == 0 {
            (expires_at_secs - now_secs, 0)
        } else {
            (expires_at_secs - now_secs - 1, 1_000_000_000 - now_nanos)
        }
    } else {
        (3600, 0)
    };
    let (rs, rn): (u64, u32) = if us > TOKEN_RENEWAL_MARGIN_SECS || (us == TOKEN_RENEWAL_MARGIN_SECS
        && un > 0) {
        (us - TOKEN_RENEWAL_MARGIN_SECS, un)
    } else {
        (0, 0)
    };
    if rs == 0 && rn == 0 {
        (30, 0)
    } else {
        (rs, rn)
    }
}

/// What the control channel delivered.
pub enum ControlEvent {
    /// A text frame that reads as a command.
    Command(ListenerCommand),
    /// A text frame that does not read as a command.
    Unreadable,
    /// A ping with its payload.
    Ping(Vec<u8>),
    /// Any other frame (pong, binary).
    Other,
    /// A close frame, or the end of the stream.
    Closed,
    /// The stream failed.
    Failed,
    /// The keep-alive interval elapsed.
    KeepAliveTick,
    /// The listener is shutting down.
    Shutdown,
}

/// What the listener does about it.
pub enum ControlAction {
    /// Open the rendezvous connection of an accepted sender.
    Accept(AcceptCommand),
    /// Hand an HTTP request to the request handler.
    Request(RequestCommand),
    /// Answer a ping with the same payload.
    Pong(Vec<u8>),
    /// Send a keep-alive ping.
    SendPing,
    /// Nothing.
    Ignore,
    /// Send a close frame and stop reading, without error.
    CloseAndStop,
    /// Stop reading, without error.
    Stop,
    /// Stop reading with the stream's error.
    Fail,
}

/// The listener's answer to each control-channel event: commands are
/// dispatched, pings answered, keep-alive ticks send a ping, a close ends
/// the channel normally and a failure with its error; unreadable and other
/// frames are ignored.
pub fn control_step(event: ControlEvent) -> (r: ControlAction)
    ensures
        match event {
            ControlEvent::Command(ListenerCommand::Accept(a)) => r == ControlAction::Accept(a),
            ControlEvent::Command(ListenerCommand::Request(q)) => r == ControlAction::Request(q),
            ControlEvent::Unreadable => r is Ignore,
            ControlEvent::Ping(p) => r matches ControlAction::Pong(q) && q@ == p@,
            ControlEvent::Other => r is Ignore,
            ControlEvent::Closed => r is Stop,
            ControlEvent::Failed => r is Fail,
            ControlEvent::KeepAliveTick => r is SendPing,
            ControlEvent::Shutdown => r is CloseAndStop,
        },
{
    match event {
        ControlEvent::Command(ListenerCommand::Accept(a)) => ControlAction::Accept(a),
        ControlEvent::Command(ListenerCommand::Request(q)) => ControlAction::Request(q),
        ControlEvent::Unreadable => ControlAction::Ignore,
        ControlEvent::Ping(p) => ControlAction::Pong(p),
        ControlEvent::Other => ControlAction::Ignore,
        ControlEvent::Closed => ControlAction::Stop,
        ControlEvent::Failed => ControlAction::Fail,
        ControlEvent::KeepAliveTick => ControlAction::SendPing,
        ControlEvent::Shutdown => ControlAction::CloseAndStop,
    }
}

/// The scheme of the control channel: `ws` for a `ws` or `http` address
/// (testing against a plain server), `wss` otherwise.
pub fn control_scheme(address_scheme: &str) -> (r: &'static str)
    ensures
        (address_scheme@ == "ws"@ || address_scheme@ == "http"@) ==> r@ == "ws"@,
        !(address_scheme@ == "ws"@ || address_scheme@ == "http"@) ==> r@ == "wss"@,
{
    let s = chars_of(address_scheme);
    if crate::text::chars_eq_str(s.as_slice(), "ws") || crate::text::chars_eq_str(
        s.as_slice(),
        "http",
    ) {
        "ws"
    } else {
        "wss"
    }
}

/// The hybrid connection's path after `/$hc/`: the address path without
/// its leading `/` and then without `$hc/`; when it does not have both,
/// the whole path.
pub open spec fn control_path_spec(full: Seq<char>) -> Seq<char> {
    let p1 = if has_prefix(full, "/"@) {
        full.skip(1)
    } else {
        full
    };
    if has_prefix(p1, "$hc/"@) {
        p1.skip(4)
    } else {
        full
    }
}

/// The path of the hybrid connection within its address path.
pub fn control_path(full: &str) -> (r: String)
    ensures
        r@ == control_path_spec(full@),
{
    let f = chars_of(full);
    let n = f.len();
    let slash = chars_of("/");
    let hc = chars_of("$hc/");
    proof {
        reveal_strlit("/");
        reveal_strlit("$hc/");
    }
    let p1: &[char] = if starts_with(f.as_slice(), slash.as_slice()) {
        &f.as_slice()[1..n]
    } else {
        f.as_slice()
    };
    let m = p1.len();
    if starts_with(p1, hc.as_slice()) {
        let r = string_of(&p1[4..m]);
        assert(p1@ == (if has_prefix(full@, "/"@) {
            full@.skip(1)
        } else {
            full@
        }));
        assert(r@ =~= control_path_spec(full@));
        r
    } else {
        assert(p1@ =~= (if has_prefix(full@, "/"@) {
            full@.skip(1)
        } else {
            full@
        }));
        full.to_owned()
    }
}

} // verus!
