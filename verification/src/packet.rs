//! Packet buffers: the unit of transfer between software and the DMA engine.

use vstd::prelude::*;

verus! {

/// Largest frame, in bytes, that the device sends or receives.
pub const MTU: usize = 1514;

/// Size in bytes of one transmit buffer.
pub const TX_BUFFER_SIZE: usize = 1514;

/// Size in bytes of one receive buffer.
pub const RX_BUFFER_SIZE: usize = 1536;

/// A fixed-capacity block of `N` bytes, bound to one descriptor for the
/// lifetime of its ring.
#[derive(Clone, Copy)]
pub struct Packet<const N: usize>(pub [u8; N]);

impl<const N: usize> Packet<N> {
    /// A buffer of `N` zero bytes.
    pub fn new() -> (packet: Self)
        ensures
            packet.0@ == Seq::new(N as nat, |i: int| 0u8),
    {
        let packet = Packet([0u8; N]);
        assert(packet.0@ =~= Seq::new(N as nat, |i: int| 0u8));
        packet
    }
}

} // verus!
