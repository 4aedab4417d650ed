//! UDP datagram framing over a relayed stream: each datagram is sent as a
//! 2-byte big-endian length followed by its bytes.

use vstd::prelude::*;

use crate::relay::error::{invalid_input_error, io_error_invalid_input, io_error_message};
use crate::text::{decimal, push_decimal, push_str, string_of};

verus! {

/// Maximum UDP datagram size.
pub const MAX_DATAGRAM_SIZE: usize = 65535;

/// The 2-byte big-endian length prefix of a datagram of `n` bytes.
pub open spec fn length_prefix(n: nat) -> Seq<u8> {
    seq![(n / 256) as u8, (n % 256) as u8]
}

/// The frame of a datagram: its length prefix, then its bytes.
pub open spec fn datagram_frame(data: Seq<u8>) -> Seq<u8> {
    length_prefix(data.len()) + data
}

/// The length a 2-byte big-endian prefix announces.
pub open spec fn prefix_length(b: Seq<u8>) -> nat {
    (b[0] as nat) * 256 + (b[1] as nat)
}

/// The message of the refusal of a datagram of `n` bytes.
pub open spec fn too_large_message(n: nat) -> Seq<char> {
    "datagram too large: "@ + decimal(n) + " bytes"@
}

/// The refusal of a datagram of `len` bytes.
fn datagram_too_large(len: usize) -> (e: std::io::Error)
    ensures
        io_error_invalid_input(e),
        io_error_message(e) == Some(too_large_message(len as nat)),
{
    let mut t: Vec<char> = Vec::new();
    push_str(&mut t, "datagram too large: ");
    push_decimal(&mut t, len as u64);
    push_str(&mut t, " bytes");
    let m = string_of(t.as_slice());
    invalid_input_error(m)
}

/// Frames a datagram; datagrams of more than 65535 bytes are refused.
pub fn encode_datagram(data: &[u8]) -> (r: Result<Vec<u8>, std::io::Error>)
    ensures
        r is Ok <==> data@.len() <= MAX_DATAGRAM_SIZE,
        r matches Ok(b) ==> b@ == datagram_frame(data@),
        r matches Err(e) ==> io_error_invalid_input(e) && io_error_message(e) == Some(
            too_large_message(data@.len()),
        ),
{
    if data.len() > MAX_DATAGRAM_SIZE {
        return Err(datagram_too_large(data.len()));
    }
    let n = data.len();
    let mut buf: Vec<u8> = Vec::new();
    buf.push((n / 256) as u8);
    buf.push((n % 256) as u8);
    let ghost head = buf@;
    let mut i: usize = 0;
    while i < n
        invariant
            n == data@.len(),
            i <= n,
            buf@ == head + data@.take(i as int),
        decreases n - i,
    {
        buf.push(data[i]);
        i = i + 1;
        assert(buf@ =~= head + data@.take(i as int));
    }
    assert(data@.take(n as int) =~= data@);
    assert(head =~= length_prefix(n as nat));
    Ok(buf)
}

/// Reads the length announced by a 2-byte prefix.
pub fn decode_datagram_length(prefix: &[u8; 2]) -> (n: usize)
    ensures
        n == prefix_length(prefix@),
{
    (prefix[0] as usize) * 256 + (prefix[1] as usize)
}

/// A frame announces the length of the datagram it carries, and carries it
/// unchanged after the prefix.
pub proof fn law_datagram_round_trip(data: Seq<u8>)
    requires
        data.len() <= MAX_DATAGRAM_SIZE,
    ensures
        prefix_length(datagram_frame(data).take(2)) == data.len(),
        datagram_frame(data).skip(2) == data,
{
    let f = datagram_frame(data);
    assert(f.skip(2) =~= data);
    assert(f.take(2)[0] == (data.len() / 256) as u8);
    assert(f.take(2)[1] == (data.len() % 256) as u8);
}

/// The frames of a stream of datagrams, as many as are complete; a stream
/// that ends inside a length prefix ends the reading cleanly, one that ends
/// inside a datagram is `None`.
pub open spec fn read_frames(b: Seq<u8>) -> Option<Seq<Seq<u8>>>
    decreases b.len(),
{
    if b.len() < 2 {
        Some(Seq::empty())
    } else {
        let n = prefix_length(b.take(2)) as int;
        if b.len() < 2 + n {
            None
        } else {
            match read_frames(b.skip(2 + n)) {
                Some(rest) => Some(seq![b.subrange(2, 2 + n)] + rest),
                None => None,
            }
        }
    }
}

/// The stream written for a sequence of datagrams, each framed in turn.
pub open spec fn frames_text(ds: Seq<Seq<u8>>) -> Seq<u8>
    decreases ds.len(),
{
    if ds.len() == 0 {
        Seq::empty()
    } else {
        datagram_frame(ds[0]) + frames_text(ds.drop_first())
    }
}

/// Datagrams written one after the other read back in the same order, and
/// the reading then ends cleanly.
pub proof fn law_datagrams_read_back_in_order(ds: Seq<Seq<u8>>)
    requires
        forall|i: int| 0 <= i < ds.len() ==> (#[trigger] ds[i]).len() <= MAX_DATAGRAM_SIZE,
    ensures
        read_frames(frames_text(ds)) == Some(ds),
    decreases ds.len(),
{
    if ds.len() > 0 {
        let d = ds[0];
        let rest = ds.drop_first();
        assert forall|i: int| 0 <= i < rest.len() implies (#[trigger] rest[i]).len()
            <= MAX_DATAGRAM_SIZE by {
            assert(rest[i] == ds[i + 1]);
        }
        law_datagrams_read_back_in_order(rest);
        law_datagram_round_trip(d);
        let f = datagram_frame(d);
        let b = f + frames_text(rest);
        assert(b.take(2) =~= f.take(2));
        assert(b.subrange(2, 2 + d.len() as int) =~= d);
        assert(b.skip(2 + d.len() as int) =~= frames_text(rest));
        assert(ds =~= seq![d] + rest);
    }
}

} // verus!
