//! The byte-stream view of a relayed WebSocket: write framing and the
//! buffering that turns incoming messages into a continuous byte stream.

use vstd::prelude::*;

verus! {

/// Controls the WebSocket frame type used for writes.
#[derive(Debug, Clone, Copy, PartialEq, Eq, Structural)]
pub enum WriteMode {
    /// Send data as WebSocket Binary frames (default).
    Binary,
    /// Send data as WebSocket Text frames.
    Text,
}

/// What the read side of a stream has seen and not yet handed out.
///
/// Incoming messages are handed to the reader in pieces that fit its
/// buffer; what does not fit is kept for the next read.
pub struct ReadState {
    /// Received bytes not yet handed to the reader.
    pub pending: Vec<u8>,
    /// The peer closed its side (a Close frame, or the end of the stream).
    pub closed: bool,
}

/// What one read hands out, as decided from the read state.
pub enum ReadStep {
    /// Bytes that were pending.
    Pending(Vec<u8>),
    /// The end of the stream: nothing is pending and the peer has closed.
    End,
    /// Nothing is pending: the next message must be awaited.
    AwaitMessage,
}

/// The number of bytes a read of a buffer with room for `room` bytes takes
/// from `available` bytes.
pub open spec fn taken(room: nat, available: nat) -> nat {
    if room < available {
        room
    } else {
        available
    }
}

impl ReadState {
    /// A fresh read side: nothing pending, not closed.
    pub fn new() -> (r: Self)
        ensures
            r.pending@ == Seq::<u8>::empty(),
            !r.closed,
    {
        ReadState { pending: Vec::new(), closed: false }
    }

    /// Starts a read into a buffer with room for `room` bytes: pending
    /// bytes come first, as many as fit; with nothing pending, a closed
    /// stream reports its end and an open one waits for a message.
    pub fn begin_read(&mut self, room: usize) -> (r: ReadStep)
        ensures
            old(self).pending@.len() > 0 ==> (r matches ReadStep::Pending(out) && out@
                == old(self).pending@.take(taken(room as nat, old(self).pending@.len()) as int)
                && final(self).pending@ == old(self).pending@.skip(
                taken(room as nat, old(self).pending@.len()) as int,
            )),
            old(self).pending@.len() == 0 ==> final(self).pending@ == old(self).pending@,
            old(self).pending@.len() == 0 && old(self).closed ==> r is End,
            old(self).pending@.len() == 0 && !old(self).closed ==> r is AwaitMessage,
            final(self).closed == old(self).closed,
    {
        let n = self.pending.len();
        if n > 0 {
            let k = if room < n {
                room
            } else {
                n
            };
            let out = split_front(&mut self.pending, k);
            ReadStep::Pending(out)
        } else if self.closed {
            ReadStep::End
        } else {
            ReadStep::AwaitMessage
        }
    }

    /// A data message arrived while nothing was pending: as much as fits in
    /// the reader's buffer is handed out, the rest is kept.
    pub fn on_message(&mut self, room: usize, data: &[u8]) -> (out: Vec<u8>)
        requires
            old(self).pending@.len() == 0,
        ensures
            out@ == data@.take(taken(room as nat, data@.len()) as int),
            final(self).pending@ == data@.skip(taken(room as nat, data@.len()) as int),
            final(self).closed == old(self).closed,
    {
        let n = data.len();
        let k = if room < n {
            room
        } else {
            n
        };
        let mut out: Vec<u8> = Vec::new();
        let mut i: usize = 0;
        while i < k
            invariant
                k <= n,
                n == data@.len(),
                i <= k,
                out@ == data@.take(i as int),
            decreases k - i,
        {
            out.push(data[i]);
            i = i + 1;
            assert(out@ =~= data@.take(i as int));
        }
        let mut rest: Vec<u8> = Vec::new();
        let mut j: usize = k;
        while j < n
            invariant
                k <= j <= n,
                n == data@.len(),
                rest@ == data@.subrange(k as int, j as int),
            decreases n - j,
        {
            rest.push(data[j]);
            j = j + 1;
            assert(rest@ =~= data@.subrange(k as int, j as int));
        }
        assert(rest@ =~= data@.skip(k as int));
        self.pending = rest;
        out
    }

    /// The peer closed its side.
    pub fn on_close(&mut self)
        ensures
            final(self).closed,
            final(self).pending@ == old(self).pending@,
    {
        self.closed = true;
    }
}

/// Removes the first `k` bytes of `v` and returns them.
fn split_front(v: &mut Vec<u8>, k: usize) -> (out: Vec<u8>)
    requires
        k <= old(v)@.len(),
    ensures
        out@ == old(v)@.take(k as int),
        final(v)@ == old(v)@.skip(k as int),
{
    let n = v.len();
    let mut out: Vec<u8> = Vec::new();
    let mut rest: Vec<u8> = Vec::new();
    let mut i: usize = 0;
    while i < n
        invariant
            k <= n,
            n == v@.len(),
            i <= n,
            i <= k ==> out@ == v@.take(i as int) && rest@ == Seq::<u8>::empty(),
            i > k ==> out@ == v@.take(k as int) && rest@ == v@.subrange(k as int, i as int),
        decreases n - i,
    {
        if i < k {
            out.push(v[i]);
            assert(out@ =~= v@.take(i + 1));
        } else {
            rest.push(v[i]);
            assert(rest@ =~= v@.subrange(k as int, i + 1));
        }
        i = i + 1;
    }
    if n <= k {
        assert(out@ =~= v@.take(k as int));
    }
    assert(rest@ =~= v@.skip(k as int));
    *v = rest;
    out
}

/// Nothing is lost or reordered: what one read hands out, followed by what
/// stays pending, is exactly what was pending before.
pub proof fn law_read_keeps_bytes(before: Seq<u8>, room: nat)
    requires
        before.len() > 0,
    ensures
        before.take(taken(room, before.len()) as int) + before.skip(taken(room, before.len()) as int)
            == before,
        room > 0 ==> taken(room, before.len()) > 0,
{
    assert(before.take(taken(room, before.len()) as int) + before.skip(
        taken(room, before.len()) as int,
    ) =~= before);
}

} // verus!
