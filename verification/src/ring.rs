//! The descriptor ring: descriptors and their buffers in memory that
//! software and the DMA engine share, with one cursor for each party.

use crate::barrier;
use crate::descriptor::{Descriptor, Owner};
use crate::model::RingState;
use crate::packet::Packet;
use vstd::prelude::*;

verus! {

/// A circular array of descriptors, each bound to the buffer at its own
/// position, with buffers of `SIZE` bytes.
pub struct Ring<'a, const SIZE: usize> {
    descriptors: &'a mut [Descriptor],
    buffers: &'a mut [Packet<SIZE>],
    head: usize,
    tail: usize,
    producer: Owner,
}

impl<'a, const SIZE: usize> View for Ring<'a, SIZE> {
    type V = RingState;

    closed spec fn view(&self) -> RingState {
        RingState {
            owners: Seq::new(self.descriptors@.len(), |i: int| self.descriptors@[i].owner()),
            lens: Seq::new(self.descriptors@.len(), |i: int| self.descriptors@[i].len() as nat),
            data: Seq::new(self.buffers@.len(), |i: int| self.buffers@[i].0@),
            head: self.head as int,
            tail: self.tail as int,
            producer: self.producer,
        }
    }
}

impl<'a, const SIZE: usize> Ring<'a, SIZE> {
    /// Every descriptor is bound to the buffer at its own position.
    pub closed spec fn bound(&self) -> bool {
        &&& self.descriptors@.len() == self.buffers@.len()
        &&& forall|i: int|
            0 <= i < self.descriptors@.len() ==> (#[trigger] self.descriptors@[i]).buffer() == i
    }

    /// The ring is bound, its model is well formed, and every buffer has
    /// `SIZE` bytes.
    pub open spec fn wf(&self) -> bool {
        &&& self.bound()
        &&& self@.wf()
        &&& forall|i: int| 0 <= i < self@.capacity() ==> (#[trigger] self@.data[i]).len() == SIZE
    }

    /// Sets up a ring over `descriptors` and `buffers` in which every slot
    /// is vacant and nothing is queued.
    pub fn new(
        descriptors: &'a mut [Descriptor],
        buffers: &'a mut [Packet<SIZE>],
        producer: Owner,
    ) -> (ring: Self)
        requires
            descriptors@.len() == buffers@.len(),
            descriptors@.len() > 0,
        ensures
            ring.wf(),
            ring@.capacity() == old(descriptors)@.len(),
            ring@.producer == producer,
            ring@.head == 0,
            ring@.tail == 0,
            ring@.count() == 0,
            ring@.owners == Seq::new(old(descriptors)@.len(), |i: int| producer),
            ring@.lens == Seq::new(old(descriptors)@.len(), |i: int| 0nat),
            ring@.data == Seq::new(old(buffers)@.len(), |i: int| old(buffers)@[i].0@),
    {
        let n: usize = descriptors.len();
        let mut i: usize = 0;
        while i < n
            invariant
                n == descriptors@.len(),
                i <= n,
                forall|j: int|
                    0 <= j < i ==> (#[trigger] descriptors@[j]).buffer() == j && descriptors@[j].owner()
                        == producer && descriptors@[j].len() == 0,
            decreases n - i,
        {
            let mut d: Descriptor = Descriptor::new();
            d.set_buffer(i);
            d.set_owner(producer);
            descriptors[i] = d;
            i = i + 1;
        }
        let ring = Ring { descriptors, buffers, head: 0, tail: 0, producer };
        proof {
            assert(ring@.owners[0] == producer);
            assert(ring@.count() == 0);
            assert forall|j: int| 0 <= j < ring@.capacity() implies (#[trigger] ring@.owners[j]
                == ring@.consumer() <==> ring@.offset(j) < ring@.count()) by {
                assert(ring.descriptors@[j].owner() == producer);
            }
            assert forall|j: int| 0 <= j < ring@.capacity() implies #[trigger] ring@.lens[j]
                <= ring@.data[j].len() by {
                assert(ring.descriptors@[j].len() == 0);
            }
            assert(ring@.owners =~= Seq::new(n as nat, |i: int| producer));
            assert(ring@.lens =~= Seq::new(n as nat, |i: int| 0nat));
        }
        ring
    }

    /// The number of slots.
    pub fn capacity(&self) -> (n: usize)
        requires
            self.wf(),
        ensures
            n == self@.capacity(),
            n > 0,
    {
        self.descriptors.len()
    }

    /// The producer's cursor.
    pub fn tail(&self) -> (tail: usize)
        requires
            self.wf(),
        ensures
            tail == self@.tail,
            tail < self@.capacity(),
    {
        self.tail
    }

    /// The consumer's cursor.
    pub fn head(&self) -> (head: usize)
        requires
            self.wf(),
        ensures
            head == self@.head,
            head < self@.capacity(),
    {
        self.head
    }

    /// Reads the ownership flag of slot `i`.
    pub fn owner(&self, i: usize) -> (owner: Owner)
        requires
            self.wf(),
            i < self@.capacity(),
        ensures
            owner == self@.owners[i as int],
    {
        let d: Descriptor = self.descriptors[i];
        d.get_owner()
    }

    /// Whether the producer has a slot to fill: reads the ownership flag
    /// at `tail`, before anything is read from the slot's buffer.
    pub fn has_vacant(&self) -> (yes: bool)
        requires
            self.wf(),
        ensures
            yes == self@.has_vacant(),
    {
        proof {
            self@.lemma_cursor_flags();
        }
        let d: Descriptor = self.descriptors[self.tail];
        let owner: Owner = d.get_owner();
        barrier::acquire();
        owner == self.producer
    }

    /// Whether the consumer has a frame to take: reads the ownership flag
    /// at `head`, before anything is read from the slot's buffer.
    pub fn has_queued(&self) -> (yes: bool)
        requires
            self.wf(),
        ensures
            yes == self@.has_queued(),
    {
        proof {
            self@.lemma_cursor_flags();
        }
        let d: Descriptor = self.descriptors[self.head];
        let owner: Owner = d.get_owner();
        barrier::acquire();
        owner != self.producer
    }

    /// The whole buffer of the slot at `tail`, for the producer to fill,
    /// if that slot is vacant. Nothing changes hands: the ring is as it
    /// was but for what the caller writes into the buffer.
    pub fn vacant(&mut self) -> (buffer: Option<&mut [u8]>)
        requires
            old(self).wf(),
        ensures
            buffer is Some == old(self)@.has_vacant(),
            buffer is None ==> *final(self) == *old(self),
            buffer matches Some(b) ==> b@ == old(self)@.data[old(self)@.tail],
            buffer matches Some(b) ==> final(b)@.len() == SIZE,
            buffer matches Some(b) ==> final(self)@ == old(self)@.store(final(b)@),
            final(self).wf(),
    {
        if self.has_vacant() {
            let i: usize = self.tail;
            let b: &mut [u8] = &mut self.buffers[i].0;
            Some(b)
        } else {
            None
        }
    }

    /// Hands the slot at `tail` over to the consumer with its first `len`
    /// bytes valid, and moves `tail` on, modulo the capacity. The flag is
    /// written after everything that was written to the buffer.
    pub fn push(&mut self, len: usize)
        requires
            old(self).wf(),
            old(self)@.has_vacant(),
            len <= SIZE,
        ensures
            final(self)@ == old(self)@.push(len as nat),
            final(self).wf(),
    {
        proof {
            self@.lemma_push(len as nat);
        }
        let i: usize = self.tail;
        let mut d: Descriptor = self.descriptors[i];
        d.set_len(len);
        d.set_owner(self.producer.other());
        barrier::release();
        self.descriptors[i] = d;
        self.tail = if i + 1 == self.descriptors.len() {
            0
        } else {
            i + 1
        };
        proof {
            let expect = old(self)@.push(len as nat);
            assert(self@.owners =~= expect.owners);
            assert(self@.lens =~= expect.lens);
            assert(self@.data =~= expect.data);
            assert(self@ == expect);
        }
    }

    /// The valid bytes of the slot at `head`, the oldest frame queued, if
    /// there is one.
    pub fn front(&self) -> (frame: Option<&[u8]>)
        requires
            self.wf(),
        ensures
            frame is Some == self@.has_queued(),
            frame matches Some(f) ==> f@ == self@.queue()[0],
    {
        if self.has_queued() {
            proof {
                self@.lemma_slot_at(0);
            }
            let i: usize = self.head;
            let len: usize = self.descriptors[i].get_len();
            let s: &[u8] = self.buffers[i].0.as_slice();
            assert(self@.lens[i as int] <= self@.data[i as int].len());
            Some(vstd::slice::slice_subrange(s, 0, len))
        } else {
            None
        }
    }

    /// The valid bytes of the slot at `head`, for the consumer to read
    /// and to write over, if a frame is queued. Nothing changes hands.
    pub fn front_mut(&mut self) -> (frame: Option<&mut [u8]>)
        requires
            old(self).wf(),
        ensures
            frame is Some == old(self)@.has_queued(),
            frame is None ==> *final(self) == *old(self),
            frame matches Some(f) ==> f@ == old(self)@.queue()[0],
            frame matches Some(f) ==> final(f)@.len() == f@.len(),
            frame matches Some(f) ==> final(self)@ == old(self)@.rewrite(final(f)@),
            frame matches Some(f) ==> final(self)@.queue() == old(self)@.queue().update(
                0,
                final(f)@,
            ),
            final(self).wf(),
    {
        if self.has_queued() {
            let i: usize = self.head;
            let len: usize = self.descriptors[i].get_len();
            proof {
                self@.lemma_slot_at(0);
                assert(self@.lens[i as int] <= self@.data[i as int].len());
            }
            let whole: &mut [u8] = &mut self.buffers[i].0;
            let (valid, rest) = whole.split_at_mut(len);
            proof {
                assert(final(rest)@ == rest@);
                assert((final(valid)@ + final(rest)@).len() == SIZE);
                old(self)@.lemma_rewrite(final(valid)@);
            }
            Some(valid)
        } else {
            None
        }
    }

    /// Retires the slot at `head`: hands it back to the producer and
    /// moves `head` on, modulo the capacity.
    pub fn pop(&mut self)
        requires
            old(self).wf(),
            old(self)@.has_queued(),
        ensures
            final(self)@ == old(self)@.pop(),
            final(self).wf(),
    {
        proof {
            self@.lemma_pop();
        }
        let i: usize = self.head;
        let mut d: Descriptor = self.descriptors[i];
        d.set_owner(self.producer);
        barrier::release();
        self.descriptors[i] = d;
        self.head = if i + 1 == self.descriptors.len() {
            0
        } else {
            i + 1
        };
        proof {
            let expect = old(self)@.pop();
            assert(self@.owners =~= expect.owners);
            assert(self@.lens =~= expect.lens);
            assert(self@.data =~= expect.data);
            assert(self@ == expect);
        }
    }
}

} // verus!
