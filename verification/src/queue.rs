//! The packet queue: the one block of memory that holds both rings.

use crate::descriptor::{Descriptor, Owner};
use crate::packet::{Packet, RX_BUFFER_SIZE, TX_BUFFER_SIZE};
use crate::rx::RDesRing;
use crate::tx::TDesRing;
use vstd::prelude::*;

verus! {

/// Descriptors and buffers for a transmit ring of `TX` slots and a
/// receive ring of `RX` slots. The capacity is fixed by the type.
pub struct PacketQueue<const TX: usize, const RX: usize> {
    tx_desc: [Descriptor; TX],
    rx_desc: [Descriptor; RX],
    tx_buf: [Packet<TX_BUFFER_SIZE>; TX],
    rx_buf: [Packet<RX_BUFFER_SIZE>; RX],
}

/// Whether `descriptors` are as a new queue has them: owned by software,
/// without status or valid bytes, each bound to the buffer at its own
/// position.
pub open spec fn fresh_descriptors(descriptors: Seq<Descriptor>) -> bool {
    forall|i: int|
        0 <= i < descriptors.len() ==> {
            &&& (#[trigger] descriptors[i]).owner() == Owner::Software
            &&& descriptors[i].status() == 0
            &&& descriptors[i].len() == 0
            &&& descriptors[i].buffer() == i
        }
}

/// Returns `N` descriptors, each zeroed and then bound to the buffer at
/// its own position.
fn linked_descriptors<const N: usize>() -> (descriptors: [Descriptor; N])
    ensures
        fresh_descriptors(descriptors@),
{
    let mut descriptors: [Descriptor; N] = [Descriptor::new(); N];
    let mut i: usize = 0;
    while i < N
        invariant
            i <= N,
            forall|j: int|
                0 <= j < i ==> {
                    &&& (#[trigger] descriptors@[j]).owner() == Owner::Software
                    &&& descriptors@[j].status() == 0
                    &&& descriptors@[j].len() == 0
                    &&& descriptors@[j].buffer() == j
                },
        decreases N - i,
    {
        let mut d: Descriptor = Descriptor::new();
        d.set_buffer(i);
        descriptors[i] = d;
        i = i + 1;
    }
    descriptors
}

impl<const TX: usize, const RX: usize> PacketQueue<TX, RX> {
    /// The transmit descriptors.
    pub closed spec fn tx_descriptors(&self) -> Seq<Descriptor> {
        self.tx_desc@
    }

    /// The receive descriptors.
    pub closed spec fn rx_descriptors(&self) -> Seq<Descriptor> {
        self.rx_desc@
    }

    /// The bytes of the transmit buffers.
    pub closed spec fn tx_buffers(&self) -> Seq<Seq<u8>> {
        Seq::new(TX as nat, |i: int| self.tx_buf@[i].0@)
    }

    /// The bytes of the receive buffers.
    pub closed spec fn rx_buffers(&self) -> Seq<Seq<u8>> {
        Seq::new(RX as nat, |i: int| self.rx_buf@[i].0@)
    }

    /// A queue of `TX` transmit and `RX` receive slots: the descriptors
    /// zeroed and bound to their buffers, the buffers filled with zero
    /// bytes.
    pub fn new() -> (queue: Self)
        ensures
            queue.tx_descriptors().len() == TX,
            queue.rx_descriptors().len() == RX,
            fresh_descriptors(queue.tx_descriptors()),
            fresh_descriptors(queue.rx_descriptors()),
            queue.tx_buffers() == Seq::new(
                TX as nat,
                |i: int| Seq::new(TX_BUFFER_SIZE as nat, |j: int| 0u8),
            ),
            queue.rx_buffers() == Seq::new(
                RX as nat,
                |i: int| Seq::new(RX_BUFFER_SIZE as nat, |j: int| 0u8),
            ),
    {
        let queue = PacketQueue {
            tx_desc: linked_descriptors(),
            rx_desc: linked_descriptors(),
            tx_buf: [Packet::new(); TX],
            rx_buf: [Packet::new(); RX],
        };
        proof {
            assert(queue.tx_buffers() =~= Seq::new(
                TX as nat,
                |i: int| Seq::new(TX_BUFFER_SIZE as nat, |j: int| 0u8),
            ));
            assert(queue.rx_buffers() =~= Seq::new(
                RX as nat,
                |i: int| Seq::new(RX_BUFFER_SIZE as nat, |j: int| 0u8),
            ));
        }
        queue
    }

    /// Lends out the two halves of the queue as rings that can be driven
    /// independently of each other. Both start with nothing queued, over
    /// the buffers as the queue holds them.
    pub fn split(&mut self) -> (rings: (TDesRing<'_>, RDesRing<'_>))
        requires
            TX > 0,
            RX > 0,
        ensures
            rings.0.wf(),
            rings.0@.capacity() == TX,
            rings.0@.head == 0,
            rings.0@.tail == 0,
            rings.0@.count() == 0,
            rings.0@.owners == Seq::new(TX as nat, |i: int| Owner::Software),
            rings.0@.lens == Seq::new(TX as nat, |i: int| 0nat),
            rings.0@.data == old(self).tx_buffers(),
            rings.1.wf(),
            rings.1@.capacity() == RX,
            rings.1@.head == 0,
            rings.1@.tail == 0,
            rings.1@.count() == 0,
            rings.1@.owners == Seq::new(RX as nat, |i: int| Owner::Hardware),
            rings.1@.lens == Seq::new(RX as nat, |i: int| 0nat),
            rings.1@.data == old(self).rx_buffers(),
    {
        let tx = TDesRing::new(&mut self.tx_desc, &mut self.tx_buf);
        let rx = RDesRing::new(&mut self.rx_desc, &mut self.rx_buf);
        (tx, rx)
    }
}

} // verus!
