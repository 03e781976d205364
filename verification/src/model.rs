//! The mathematical model of a descriptor ring: a circular sequence of
//! slots that a producer fills and a consumer drains, each slot owned by
//! exactly one of the two at any time.

use crate::descriptor::Owner;
use vstd::prelude::*;

verus! {

/// A ring of slots with the cursors of its two parties.
///
/// Slot `i` is owned by `owners[i]`; the first `lens[i]` bytes of its
/// buffer `data[i]` are valid. `tail` is where the producer puts the next
/// frame, `head` is where the consumer takes the oldest one. The slots
/// from `head` up to `tail`, going round the end of the ring, are queued:
/// the producer has handed them over and the consumer owns them. All
/// others are vacant and owned by the producer.
#[verifier::ext_equal]
pub struct RingState {
    pub owners: Seq<Owner>,
    pub lens: Seq<nat>,
    pub data: Seq<Seq<u8>>,
    pub head: int,
    pub tail: int,
    pub producer: Owner,
}

impl RingState {
    /// The number of slots.
    pub open spec fn capacity(self) -> int {
        self.owners.len() as int
    }

    /// The party that drains the ring.
    pub open spec fn consumer(self) -> Owner {
        self.producer.other()
    }

    /// The cursor position after `i`, modulo the capacity.
    pub open spec fn next(self, i: int) -> int {
        if i + 1 == self.capacity() {
            0
        } else {
            i + 1
        }
    }

    /// The number of queued slots.
    pub open spec fn count(self) -> int {
        if self.tail > self.head {
            self.tail - self.head
        } else if self.tail < self.head {
            self.capacity() - self.head + self.tail
        } else if self.owners[self.head] == self.consumer() {
            self.capacity()
        } else {
            0
        }
    }

    /// How many slots slot `i` lies after `head`, going round.
    pub open spec fn offset(self, i: int) -> int {
        if i >= self.head {
            i - self.head
        } else {
            self.capacity() - self.head + i
        }
    }

    /// The position of the `k`-th queued slot, counted from the oldest.
    pub open spec fn slot_at(self, k: int) -> int {
        if self.head + k < self.capacity() {
            self.head + k
        } else {
            self.head + k - self.capacity()
        }
    }

    /// The valid bytes of slot `i`.
    pub open spec fn frame(self, i: int) -> Seq<u8> {
        self.data[i].subrange(0, self.lens[i] as int)
    }

    /// The queued frames, oldest first.
    pub open spec fn queue(self) -> Seq<Seq<u8>> {
        Seq::new(self.count() as nat, |k: int| self.frame(self.slot_at(k)))
    }

    /// Both cursors are inside the ring, the queued slots are exactly
    /// those the consumer owns, and no slot claims more valid bytes than
    /// its buffer holds.
    pub open spec fn wf(self) -> bool {
        &&& self.capacity() > 0
        &&& self.lens.len() == self.capacity()
        &&& self.data.len() == self.capacity()
        &&& 0 <= self.head < self.capacity()
        &&& 0 <= self.tail < self.capacity()
        &&& forall|i: int|
            0 <= i < self.capacity() ==> (#[trigger] self.owners[i] == self.consumer()
                <==> self.offset(i) < self.count())
        &&& forall|i: int| 0 <= i < self.capacity() ==> #[trigger] self.lens[i] <= self.data[i].len()
    }

    /// Whether the producer has a slot to fill.
    pub open spec fn has_vacant(self) -> bool {
        self.count() < self.capacity()
    }

    /// Whether the consumer has a frame to take.
    pub open spec fn has_queued(self) -> bool {
        self.count() > 0
    }

    /// The ring after the producer has written `data` over the buffer of
    /// the slot at `tail`.
    pub open spec fn store(self, data: Seq<u8>) -> RingState {
        RingState { data: self.data.update(self.tail, data), ..self }
    }

    /// The ring after the producer has handed over the slot at `tail`
    /// with `len` valid bytes.
    pub open spec fn push(self, len: nat) -> RingState {
        RingState {
            owners: self.owners.update(self.tail, self.consumer()),
            lens: self.lens.update(self.tail, len),
            tail: self.next(self.tail),
            ..self
        }
    }

    /// The ring after the producer has written `frame` to the front of
    /// the buffer at `tail` and handed the slot over with exactly the
    /// bytes of `frame` valid.
    pub open spec fn submit(self, frame: Seq<u8>) -> RingState {
        let whole = self.data[self.tail];
        self.store(frame + whole.subrange(frame.len() as int, whole.len() as int)).push(frame.len())
    }

    /// The ring after the consumer has retired the slot at `head`.
    pub open spec fn pop(self) -> RingState {
        RingState {
            owners: self.owners.update(self.head, self.producer),
            head: self.next(self.head),
            ..self
        }
    }

    /// The ring after the consumer has written `data` over the valid
    /// bytes of the slot at `head`.
    pub open spec fn rewrite(self, data: Seq<u8>) -> RingState {
        let whole = self.data[self.head];
        RingState {
            data: self.data.update(
                self.head,
                data + whole.subrange(self.lens[self.head] as int, whole.len() as int),
            ),
            ..self
        }
    }

    /// The cursor moves modulo the capacity.
    pub proof fn lemma_next(self, i: int)
        requires
            0 <= i < self.capacity(),
        ensures
            self.next(i) == (i + 1) % self.capacity(),
            0 <= self.next(i) < self.capacity(),
    {
        if i + 1 == self.capacity() {
            vstd::arithmetic::div_mod::lemma_mod_self_0(self.capacity());
        } else {
            vstd::arithmetic::div_mod::lemma_small_mod((i + 1) as nat, self.capacity() as nat);
        }
    }

    /// The ownership flag at each cursor tells that party whether it has
    /// work: the producer has a vacant slot exactly when it owns the slot
    /// at `tail`, the consumer has a frame exactly when it owns the slot
    /// at `head`.
    pub proof fn lemma_cursor_flags(self)
        requires
            self.wf(),
        ensures
            0 <= self.count() <= self.capacity(),
            self.has_vacant() <==> self.owners[self.tail] == self.producer,
            self.has_queued() <==> self.owners[self.head] == self.consumer(),
    {
        let t = self.owners[self.tail];
        let h = self.owners[self.head];
    }

    /// The queued slots are distinct, and each is owned by the consumer.
    pub proof fn lemma_slot_at(self, k: int)
        requires
            self.wf(),
            0 <= k < self.count(),
        ensures
            0 <= self.slot_at(k) < self.capacity(),
            self.offset(self.slot_at(k)) == k,
            self.owners[self.slot_at(k)] == self.consumer(),
            self.slot_at(0) == self.head,
            self.lens[self.slot_at(k)] <= self.data[self.slot_at(k)].len(),
    {
        self.lemma_cursor_flags();
        let s = self.owners[self.slot_at(k)];
        let l = self.lens[self.slot_at(k)];
    }

    /// Writing to the vacant slot at `tail` disturbs nothing that is
    /// queued.
    pub proof fn lemma_store(self, data: Seq<u8>)
        requires
            self.wf(),
            self.has_vacant(),
            data.len() == self.data[self.tail].len(),
        ensures
            self.store(data).wf(),
            self.store(data).count() == self.count(),
            self.store(data).queue() == self.queue(),
    {
        let after = self.store(data);
        self.lemma_cursor_flags();
        assert forall|i: int| 0 <= i < after.capacity() implies #[trigger] after.lens[i]
            <= after.data[i].len() by {
            let l = self.lens[i];
        }
        assert forall|k: int| 0 <= k < self.count() implies after.frame(after.slot_at(k))
            == self.frame(self.slot_at(k)) by {
            self.lemma_slot_at(k);
        }
        assert(after.queue() =~= self.queue());
    }

    /// Writing over the valid bytes of the slot at `head` changes the
    /// oldest frame and nothing else that is queued.
    pub proof fn lemma_rewrite(self, data: Seq<u8>)
        requires
            self.wf(),
            self.has_queued(),
            data.len() == self.lens[self.head],
        ensures
            self.rewrite(data).wf(),
            self.rewrite(data).count() == self.count(),
            self.rewrite(data).queue() == self.queue().update(0, data),
    {
        let after = self.rewrite(data);
        self.lemma_cursor_flags();
        self.lemma_slot_at(0);
        assert forall|i: int| 0 <= i < after.capacity() implies #[trigger] after.lens[i]
            <= after.data[i].len() by {
            let l = self.lens[i];
        }
        assert forall|k: int| 0 <= k < after.count() implies #[trigger] after.queue()[k]
            == self.queue().update(0, data)[k] by {
            self.lemma_slot_at(k);
            if k == 0 {
                assert(after.frame(self.head) =~= data);
            }
        }
        assert(after.queue() =~= self.queue().update(0, data));
    }

    /// Handing over the slot at `tail` appends its first `len` bytes to
    /// the queue and leaves the frames already queued as they were.
    pub proof fn lemma_push(self, len: nat)
        requires
            self.wf(),
            self.has_vacant(),
            len <= self.data[self.tail].len(),
        ensures
            self.push(len).wf(),
            self.push(len).count() == self.count() + 1,
            self.push(len).queue() == self.queue().push(self.data[self.tail].subrange(0, len as int)),
    {
        let after = self.push(len);
        self.lemma_cursor_flags();
        self.lemma_next(self.tail);
        assert(after.owners[self.tail] == after.consumer());
        assert(after.count() == self.count() + 1) by {
            let h = self.owners[self.head];
            let a = after.owners[after.head];
        }
        assert forall|i: int| 0 <= i < after.capacity() implies (#[trigger] after.owners[i]
            == after.consumer() <==> after.offset(i) < after.count()) by {
            let s = self.owners[i];
        }
        assert forall|i: int| 0 <= i < after.capacity() implies #[trigger] after.lens[i]
            <= after.data[i].len() by {
            let l = self.lens[i];
        }
        let frame = self.data[self.tail].subrange(0, len as int);
        assert forall|k: int| 0 <= k < after.count() implies #[trigger] after.queue()[k]
            == self.queue().push(frame)[k] by {
            if k < self.count() {
                self.lemma_slot_at(k);
            }
        }
        assert(after.queue() =~= self.queue().push(frame));
    }

    /// Submitting a frame that fits appends exactly that frame to the
    /// queue: no byte more, no byte less, none changed.
    pub proof fn lemma_submit(self, frame: Seq<u8>)
        requires
            self.wf(),
            self.has_vacant(),
            frame.len() <= self.data[self.tail].len(),
        ensures
            self.submit(frame).wf(),
            self.submit(frame).count() == self.count() + 1,
            self.submit(frame).queue() == self.queue().push(frame),
            self.submit(frame).head == self.head,
            self.submit(frame).tail == self.next(self.tail),
            self.submit(frame).owners == self.owners.update(self.tail, self.consumer()),
            self.submit(frame).producer == self.producer,
            forall|i: int|
                0 <= i < self.capacity() ==> (#[trigger] self.submit(frame).data[i]).len()
                    == self.data[i].len(),
    {
        let whole = self.data[self.tail];
        let written = frame + whole.subrange(frame.len() as int, whole.len() as int);
        self.lemma_store(written);
        self.store(written).lemma_push(frame.len());
        assert(written.subrange(0, frame.len() as int) =~= frame);
    }

    /// Retiring the slot at `head` removes the oldest frame from the
    /// queue and leaves the others as they were.
    pub proof fn lemma_pop(self)
        requires
            self.wf(),
            self.has_queued(),
        ensures
            self.pop().wf(),
            self.pop().count() == self.count() - 1,
            self.queue()[0] == self.frame(self.head),
            self.pop().queue() == self.queue().drop_first(),
    {
        let after = self.pop();
        self.lemma_cursor_flags();
        self.lemma_next(self.head);
        assert(after.owners[self.head] == after.producer);
        assert(after.count() == self.count() - 1) by {
            let h = self.owners[self.head];
            let a = after.owners[after.head];
            let t = self.owners[self.tail];
        }
        assert forall|i: int| 0 <= i < after.capacity() implies (#[trigger] after.owners[i]
            == after.consumer() <==> after.offset(i) < after.count()) by {
            let s = self.owners[i];
        }
        assert forall|i: int| 0 <= i < after.capacity() implies #[trigger] after.lens[i]
            <= after.data[i].len() by {
            let l = self.lens[i];
        }
        assert forall|k: int| 0 <= k < after.count() implies #[trigger] after.queue()[k]
            == self.queue().drop_first()[k] by {
            self.lemma_slot_at(k + 1);
        }
        assert(after.queue() =~= self.queue().drop_first());
    }
}

} // verus!
