//! The transmit ring: software queues frames, the DMA engine sends them.

use crate::descriptor::{Descriptor, Owner};
use crate::model::RingState;
use crate::packet::{Packet, TX_BUFFER_SIZE};
use crate::ring::Ring;
use vstd::prelude::*;

verus! {

/// The transmit descriptor ring. Its queue holds the frames in flight:
/// submitted by software and not yet sent by the DMA engine.
pub struct TDesRing<'a> {
    ring: Ring<'a, TX_BUFFER_SIZE>,
}

impl<'a> View for TDesRing<'a> {
    type V = RingState;

    closed spec fn view(&self) -> RingState {
        self.ring@
    }
}

impl<'a> TDesRing<'a> {
    /// The descriptors are bound to their buffers.
    pub closed spec fn inv(&self) -> bool {
        self.ring.wf()
    }

    /// The ring is in order: software produces, the slots in flight are
    /// exactly those the DMA engine owns, and every buffer has
    /// `TX_BUFFER_SIZE` bytes.
    pub open spec fn wf(&self) -> bool {
        &&& self.inv()
        &&& self@.wf()
        &&& self@.producer == Owner::Software
        &&& forall|i: int|
            0 <= i < self@.capacity() ==> (#[trigger] self@.data[i]).len() == TX_BUFFER_SIZE
    }

    /// Sets up the ring over `descriptors` and `buffers`: every slot is
    /// owned by software and nothing is in flight.
    pub fn new(descriptors: &'a mut [Descriptor], buffers: &'a mut [Packet<TX_BUFFER_SIZE>]) -> (ring:
        Self)
        requires
            descriptors@.len() == buffers@.len(),
            descriptors@.len() > 0,
        ensures
            ring.wf(),
            ring@.capacity() == old(descriptors)@.len(),
            ring@.head == 0,
            ring@.tail == 0,
            ring@.count() == 0,
            ring@.owners == Seq::new(old(descriptors)@.len(), |i: int| Owner::Software),
            ring@.lens == Seq::new(old(descriptors)@.len(), |i: int| 0nat),
            ring@.data == Seq::new(old(buffers)@.len(), |i: int| old(buffers)@[i].0@),
    {
        TDesRing { ring: Ring::new(descriptors, buffers, Owner::Software) }
    }

    /// The number of slots.
    pub fn len(&self) -> (n: usize)
        requires
            self.wf(),
        ensures
            n == self@.capacity(),
            n > 0,
    {
        self.ring.capacity()
    }

    /// The position of the next slot that software submits.
    pub fn index(&self) -> (index: usize)
        requires
            self.wf(),
        ensures
            index == self@.tail,
            index < self@.capacity(),
    {
        self.ring.tail()
    }

    /// Reads the ownership flag of slot `i`.
    pub fn owner(&self, i: usize) -> (owner: Owner)
        requires
            self.wf(),
            i < self@.capacity(),
        ensures
            owner == self@.owners[i as int],
    {
        self.ring.owner(i)
    }

    /// Whether software owns the next slot, so that a frame can be
    /// submitted: reads the ownership flag at the cursor.
    pub fn ready(&self) -> (yes: bool)
        requires
            self.wf(),
        ensures
            yes == self@.has_vacant(),
    {
        self.ring.has_vacant()
    }

    /// The buffer of the next slot, for the caller to write a frame into,
    /// if software owns that slot; `None` while the ring is full. Nothing
    /// changes hands.
    pub fn available(&mut self) -> (buffer: Option<&mut [u8]>)
        requires
            old(self).wf(),
        ensures
            buffer is Some == old(self)@.has_vacant(),
            buffer is None ==> *final(self) == *old(self),
            buffer matches Some(b) ==> b@ == old(self)@.data[old(self)@.tail],
            buffer matches Some(b) ==> final(b)@.len() == TX_BUFFER_SIZE,
            buffer matches Some(b) ==> final(self)@ == old(self)@.store(final(b)@),
            final(self).wf(),
    {
        self.ring.vacant()
    }

    /// Submits the first `len` bytes of the next slot's buffer: records
    /// the length, hands the slot to the DMA engine and moves the cursor
    /// on, modulo the capacity.
    pub fn transmit(&mut self, len: usize)
        requires
            old(self).wf(),
            old(self)@.has_vacant(),
            len <= TX_BUFFER_SIZE,
        ensures
            final(self)@ == old(self)@.push(len as nat),
            final(self).wf(),
            final(self)@.queue() == old(self)@.queue().push(
                old(self)@.data[old(self)@.tail].subrange(0, len as int),
            ),
    {
        proof {
            self@.lemma_push(len as nat);
        }
        self.ring.push(len);
    }

    /// The device's side: the frame that the DMA engine sends next, the
    /// oldest one in flight, if there is one.
    pub fn pending(&self) -> (frame: Option<&[u8]>)
        requires
            self.wf(),
        ensures
            frame is Some == self@.has_queued(),
            frame matches Some(f) ==> f@ == self@.queue()[0],
    {
        self.ring.front()
    }

    /// The device's side: the DMA engine has sent the oldest frame in
    /// flight and hands its slot back to software. Returns whether a frame
    /// was in flight; if none was, nothing changes.
    pub fn complete(&mut self) -> (done: bool)
        requires
            old(self).wf(),
        ensures
            done == old(self)@.has_queued(),
            done ==> final(self)@ == old(self)@.pop(),
            done ==> final(self)@.queue() == old(self)@.queue().drop_first(),
            !done ==> *final(self) == *old(self),
            final(self).wf(),
    {
        if self.ring.has_queued() {
            proof {
                self@.lemma_pop();
            }
            self.ring.pop();
            true
        } else {
            false
        }
    }
}

} // verus!
