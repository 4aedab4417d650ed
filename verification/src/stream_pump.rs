//! Sizing of the bidirectional copy between a local stream and a relay
//! stream.

use vstd::prelude::*;

verus! {

/// Buffer size for each direction of the pump (64 KB).
pub const BUFFER_SIZE: usize = 65536;

} // verus!
