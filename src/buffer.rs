//! The fixed-size buffer that one datagram is received into.

use vstd::prelude::*;

verus! {

/// Room for one 512-byte datagram, with a read position.
#[derive(Debug)]
pub struct BytePacketBuffer {
    pub buf: [u8; 512],
    pub position: u8,
}

impl BytePacketBuffer {
    /// A zeroed buffer, read from its start.
    pub fn new() -> (r: BytePacketBuffer)
        ensures
            r.buf@ == Seq::new(512, |i: int| 0u8),
            r.position == 0,
    {
        let r = BytePacketBuffer { buf: [0u8; 512], position: 0 };
        assert(r.buf@ =~= Seq::new(512, |i: int| 0u8));
        r
    }
}

} // verus!
