//! The receive ring: the DMA engine queues frames, software takes them.

use crate::descriptor::{Descriptor, Owner};
use crate::model::RingState;
use crate::packet::{Packet, RX_BUFFER_SIZE};
use crate::ring::Ring;
use vstd::prelude::*;

verus! {

/// Copies `src` over the first bytes of `dst`.
pub fn copy_into(dst: &mut [u8], src: &[u8])
    requires
        src@.len() <= old(dst)@.len(),
    ensures
        final(dst)@ == src@ + old(dst)@.subrange(src@.len() as int, old(dst)@.len() as int),
{
    let n: usize = src.len();
    let mut i: usize = 0;
    while i < n
        invariant
            n == src@.len(),
            i <= n,
            dst@.len() == old(dst)@.len(),
            n <= dst@.len(),
            forall|j: int| 0 <= j < i ==> dst@[j] == src@[j],
            forall|j: int| i <= j < dst@.len() ==> dst@[j] == old(dst)@[j],
        decreases n - i,
    {
        dst[i] = src[i];
        i = i + 1;
    }
    assert(dst@ =~= src@ + old(dst)@.subrange(src@.len() as int, old(dst)@.len() as int));
}

/// The receive descriptor ring. Its queue holds the frames received:
/// written by the DMA engine and not yet taken by software.
pub struct RDesRing<'a> {
    ring: Ring<'a, RX_BUFFER_SIZE>,
}

impl<'a> View for RDesRing<'a> {
    type V = RingState;

    closed spec fn view(&self) -> RingState {
        self.ring@
    }
}

impl<'a> RDesRing<'a> {
    /// The descriptors are bound to their buffers.
    pub closed spec fn inv(&self) -> bool {
        self.ring.wf()
    }

    /// The ring is in order: the DMA engine produces, the frames received
    /// are exactly the slots that software owns, and every buffer has
    /// `RX_BUFFER_SIZE` bytes.
    pub open spec fn wf(&self) -> bool {
        &&& self.inv()
        &&& self@.wf()
        &&& self@.producer == Owner::Hardware
        &&& forall|i: int|
            0 <= i < self@.capacity() ==> (#[trigger] self@.data[i]).len() == RX_BUFFER_SIZE
    }

    /// Sets up the ring over `descriptors` and `buffers`: every slot is
    /// handed to the DMA engine and nothing has been received.
    pub fn new(descriptors: &'a mut [Descriptor], buffers: &'a mut [Packet<RX_BUFFER_SIZE>]) -> (ring:
        Self)
        requires
            descriptors@.len() == buffers@.len(),
            descriptors@.len() > 0,
        ensures
            ring.wf(),
            ring@.capacity() == old(descriptors)@.len(),
            ring@.head == 0,
            ring@.tail == 0,
            ring@.count() == 0,
            ring@.owners == Seq::new(old(descriptors)@.len(), |i: int| Owner::Hardware),
            ring@.lens == Seq::new(old(descriptors)@.len(), |i: int| 0nat),
            ring@.data == Seq::new(old(buffers)@.len(), |i: int| old(buffers)@[i].0@),
    {
        RDesRing { ring: Ring::new(descriptors, buffers, Owner::Hardware) }
    }

    /// The number of slots.
    pub fn len(&self) -> (n: usize)
        requires
            self.wf(),
        ensures
            n == self@.capacity(),
            n > 0,
    {
        self.ring.capacity()
    }

    /// The position of the next slot that software takes a frame from.
    pub fn index(&self) -> (index: usize)
        requires
            self.wf(),
        ensures
            index == self@.head,
            index < self@.capacity(),
    {
        self.ring.head()
    }

    /// Reads the ownership flag of slot `i`.
    pub fn owner(&self, i: usize) -> (owner: Owner)
        requires
            self.wf(),
            i < self@.capacity(),
        ensures
            owner == self@.owners[i as int],
    {
        self.ring.owner(i)
    }

    /// Whether software owns the next slot, so that a frame is waiting:
    /// reads the ownership flag at the cursor.
    pub fn ready(&self) -> (yes: bool)
        requires
            self.wf(),
        ensures
            yes == self@.has_queued(),
    {
        self.ring.has_queued()
    }

    /// The bytes of the oldest frame received, for the caller to read and
    /// to write over, if software owns the next slot; `None` while nothing
    /// has been received. Nothing changes hands.
    pub fn available(&mut self) -> (frame: Option<&mut [u8]>)
        requires
            old(self).wf(),
        ensures
            frame is Some == old(self)@.has_queued(),
            frame is None ==> *final(self) == *old(self),
            frame matches Some(f) ==> f@ == old(self)@.queue()[0],
            frame matches Some(f) ==> final(f)@.len() == f@.len(),
            frame matches Some(f) ==> final(self)@ == old(self)@.rewrite(final(f)@),
            frame matches Some(f) ==> final(self)@.queue() == old(self)@.queue().update(
                0,
                final(f)@,
            ),
            final(self).wf(),
    {
        self.ring.front_mut()
    }

    /// Retires the oldest frame received: hands its slot back to the DMA
    /// engine and moves the cursor on, modulo the capacity.
    pub fn pop_packet(&mut self)
        requires
            old(self).wf(),
            old(self)@.has_queued(),
        ensures
            final(self)@ == old(self)@.pop(),
            final(self).wf(),
            final(self)@.queue() == old(self)@.queue().drop_first(),
    {
        proof {
            self@.lemma_pop();
        }
        self.ring.pop();
    }

    /// The device's side: the DMA engine receives `frame`. If it owns the
    /// slot at its cursor and the frame fits a buffer, it writes the frame
    /// there and hands the slot to software; otherwise the frame is
    /// dropped and nothing changes. Returns whether the frame was queued.
    pub fn deliver(&mut self, frame: &[u8]) -> (queued: bool)
        requires
            old(self).wf(),
        ensures
            queued == (old(self)@.has_vacant() && frame@.len() <= RX_BUFFER_SIZE),
            queued ==> final(self)@ == old(self)@.submit(frame@),
            queued ==> final(self)@.queue() == old(self)@.queue().push(frame@),
            !queued ==> *final(self) == *old(self),
            final(self).wf(),
    {
        if frame.len() > RX_BUFFER_SIZE {
            return false;
        }
        let stored: bool = match self.ring.vacant() {
            Some(buffer) => {
                copy_into(buffer, frame);
                true
            },
            None => false,
        };
        if stored {
            proof {
                old(self)@.lemma_submit(frame@);
            }
            self.ring.push(frame.len());
        }
        stored
    }
}

} // verus!
