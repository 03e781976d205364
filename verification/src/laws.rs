//! What holds of every ring, whatever its capacity and whatever has been
//! queued in it. The rings' functions are specified by the transitions
//! of the model that these laws speak of.

use crate::descriptor::Owner;
use crate::model::RingState;
use crate::smi::{chain, only_reads, run, writes_to, LoopbackPhy, Transaction, LAST_REGISTER};
use vstd::prelude::*;

verus! {

impl RingState {
    /// The ring after the producer has submitted `frames`, one after the
    /// other, with nothing retired in between.
    pub open spec fn submit_all(self, frames: Seq<Seq<u8>>) -> RingState
        decreases frames.len(),
    {
        if frames.len() == 0 {
            self
        } else {
            self.submit_all(frames.drop_last()).submit(frames.last())
        }
    }

    /// Whether every buffer of the ring has `size` bytes.
    pub open spec fn buffers_of(self, size: nat) -> bool {
        forall|i: int| 0 <= i < self.capacity() ==> (#[trigger] self.data[i]).len() == size
    }
}

/// Whether each of `frames` has at most `size` bytes.
pub open spec fn frames_fit(frames: Seq<Seq<u8>>, size: nat) -> bool {
    forall|i: int| 0 <= i < frames.len() ==> (#[trigger] frames[i]).len() <= size
}

/// As long as no more frames are submitted than there are vacant slots,
/// every submission finds a slot, each one takes up exactly one, and the
/// queue holds the frames as they were submitted, in that order.
pub proof fn law_submissions(s: RingState, frames: Seq<Seq<u8>>, size: nat)
    requires
        s.wf(),
        s.buffers_of(size),
        frames_fit(frames, size),
        s.count() + frames.len() <= s.capacity(),
    ensures
        s.submit_all(frames).wf(),
        s.submit_all(frames).capacity() == s.capacity(),
        s.submit_all(frames).buffers_of(size),
        s.submit_all(frames).count() == s.count() + frames.len(),
        s.submit_all(frames).queue() == s.queue() + frames,
        s.submit_all(frames).head == s.head,
        s.submit_all(frames).producer == s.producer,
    decreases frames.len(),
{
    if frames.len() == 0 {
        assert(s.queue() + frames =~= s.queue());
    } else {
        let earlier = frames.drop_last();
        law_submissions(s, earlier, size);
        let mid = s.submit_all(earlier);
        assert(mid.data[mid.tail].len() == size);
        assert(frames.last() == frames[frames.len() - 1]);
        mid.lemma_submit(frames.last());
        assert(mid.queue().push(frames.last()) =~= s.queue() + frames);
    }
}

/// A ring of any capacity in which nothing is queued takes as many
/// frames as it has slots, and then reports that it has no slot left.
/// Before that, there is a slot for each next frame.
pub proof fn law_full_after_capacity(s: RingState, frames: Seq<Seq<u8>>, size: nat, k: int)
    requires
        s.wf(),
        s.buffers_of(size),
        s.count() == 0,
        frames.len() == s.capacity(),
        frames_fit(frames, size),
        0 <= k < s.capacity(),
    ensures
        s.submit_all(frames.take(k)).has_vacant(),
        !s.submit_all(frames).has_vacant(),
        s.submit_all(frames).queue() == frames,
{
    law_submissions(s, frames, size);
    law_submissions(s, frames.take(k), size);
    assert(s.queue() + frames =~= frames);
}

/// When a full ring has one slot retired, exactly one submission becomes
/// possible again: the next one finds a slot, and the one after it
/// finds none.
pub proof fn law_single_slot_recovery(s: RingState, frame: Seq<u8>)
    requires
        s.wf(),
        !s.has_vacant(),
        frame.len() <= s.data[s.head].len(),
    ensures
        s.pop().wf(),
        s.pop().has_vacant(),
        s.pop().tail == s.head,
        !s.pop().submit(frame).has_vacant(),
{
    s.lemma_cursor_flags();
    s.lemma_pop();
    s.pop().lemma_submit(frame);
}

/// A frame that is submitted comes out as it went in: once the frames
/// queued before it are retired, it is the oldest frame of the queue,
/// byte for byte and with no byte more.
pub proof fn law_round_trip(s: RingState, frame: Seq<u8>)
    requires
        s.wf(),
        s.has_vacant(),
        frame.len() <= s.data[s.tail].len(),
    ensures
        s.submit(frame).queue() == s.queue().push(frame),
        s.submit(frame).queue().last() == frame,
        s.count() == 0 ==> s.submit(frame).queue()[0] == frame,
{
    s.lemma_submit(frame);
}

/// No slot is referred to twice: the queued slots lie at different
/// positions, and the slot that the producer is offered is none of
/// them.
pub proof fn law_exclusive(s: RingState, j: int, k: int)
    requires
        s.wf(),
        0 <= j < s.count(),
        0 <= k < s.count(),
        j != k,
    ensures
        s.slot_at(j) != s.slot_at(k),
        s.has_vacant() ==> s.slot_at(j) != s.tail,
{
    s.lemma_slot_at(j);
    s.lemma_slot_at(k);
    s.lemma_cursor_flags();
}

/// With one slot vacant, in a ring of any capacity, one submission
/// succeeds and the next is refused.
pub proof fn law_last_slot(s: RingState, frame: Seq<u8>)
    requires
        s.wf(),
        s.count() + 1 == s.capacity(),
        frame.len() <= s.data[s.tail].len(),
    ensures
        s.has_vacant(),
        !s.submit(frame).has_vacant(),
{
    s.lemma_submit(frame);
}

/// A slot changes hands only when it is handed over or retired, and then
/// it is the one slot at the cursor that does: writing into a buffer
/// moves no flag, a submission moves the flag at `tail` from the
/// producer to the consumer, a retirement moves the flag at `head` back.
pub proof fn law_ownership_flips_once(s: RingState, data: Seq<u8>, frame: Seq<u8>)
    requires
        s.wf(),
    ensures
        s.store(data).owners == s.owners,
        s.rewrite(data).owners == s.owners,
        s.has_vacant() ==> s.owners[s.tail] == s.producer && s.submit(frame).owners
            == s.owners.update(s.tail, s.consumer()),
        s.has_queued() ==> s.owners[s.head] == s.consumer() && s.pop().owners == s.owners.update(
            s.head,
            s.producer,
        ),
        s.producer != s.consumer(),
        forall|i: int|
            0 <= i < s.capacity() ==> (#[trigger] s.owners[i] == Owner::Software) != (s.owners[i]
                == Owner::Hardware),
{
    s.lemma_cursor_flags();
}

/// What registers that hold `registers` hold after the writes among
/// `ts`, made in that order. A write to a register that is not there
/// changes nothing.
pub open spec fn replay(registers: Seq<u16>, ts: Seq<Transaction>) -> Seq<u16>
    decreases ts.len(),
{
    if ts.len() == 0 {
        registers
    } else {
        let earlier = replay(registers, ts.drop_last());
        match ts.last() {
            Transaction::Write { reg, val } => if reg < earlier.len() {
                earlier.update(reg as int, val)
            } else {
                earlier
            },
            Transaction::Read { .. } => earlier,
        }
    }
}

/// Along a chain of states of the loop-back PHY, the registers hold at
/// every point what the writes made so far have put there.
proof fn lemma_loopback_chain(states: Seq<LoopbackPhy>, ts: Seq<Transaction>, k: int)
    requires
        chain(states, ts),
        0 <= k <= ts.len(),
    ensures
        states[k].registers() == replay(states[0].registers(), ts.take(k)),
        replay(states[0].registers(), ts.take(k)).len() == 32,
    decreases k,
{
    states[0].lemma_registers();
    if k == 0 {
        assert(ts.take(0) =~= Seq::<Transaction>::empty());
    } else {
        lemma_loopback_chain(states, ts, k - 1);
        assert(ts.take(k).drop_last() =~= ts.take(k - 1));
        assert(ts.take(k).last() == ts[k - 1]);
        let t = ts[k - 1];
        assert(crate::smi::step(states[k - 1], t, states[k]));
        states[k].lemma_registers();
    }
}

/// Whatever is done to the loop-back PHY over a bus, its registers hold
/// afterwards what the writes have put there, and every read on the
/// way was answered with what its register held at that moment.
pub proof fn law_loopback_run(pre: LoopbackPhy, ts: Seq<Transaction>, post: LoopbackPhy, i: int)
    requires
        run(pre, ts, post),
        0 <= i < ts.len(),
    ensures
        post.registers() == replay(pre.registers(), ts),
        ts[i] matches Transaction::Read { reg, val } ==> reg <= LAST_REGISTER && val == replay(
            pre.registers(),
            ts.take(i),
        )[reg as int],
{
    let states = choose|states: Seq<LoopbackPhy>|
        #[trigger] chain(states, ts) && states[0] == pre && states.last() == post;
    lemma_loopback_chain(states, ts, ts.len() as int);
    assert(ts.take(ts.len() as int) =~= ts);
    lemma_loopback_chain(states, ts, i);
    assert(crate::smi::step(states[i], ts[i], states[i + 1]));
}

/// Reads put nothing into the registers.
proof fn lemma_replay_reads(registers: Seq<u16>, ts: Seq<Transaction>)
    requires
        only_reads(ts),
    ensures
        replay(registers, ts) == registers,
    decreases ts.len(),
{
    if ts.len() > 0 {
        assert(ts.last() == ts[ts.len() - 1]);
        assert forall|i: int| 0 <= i < ts.drop_last().len() implies #[trigger] ts.drop_last()[i] is Read by {
            assert(ts.drop_last()[i] == ts[i]);
        }
        lemma_replay_reads(registers, ts.drop_last());
    }
}

/// Bus traffic that only reads leaves every register of the loop-back
/// PHY as it was, and each read is answered with what its register
/// holds.
pub proof fn law_loopback_reads(pre: LoopbackPhy, ts: Seq<Transaction>, post: LoopbackPhy, i: int)
    requires
        run(pre, ts, post),
        only_reads(ts),
        0 <= i < ts.len(),
    ensures
        post.registers() == pre.registers(),
        ts[i] matches Transaction::Read { reg, val } && reg <= LAST_REGISTER && val
            == pre.registers()[reg as int],
{
    law_loopback_run(pre, ts, post, i);
    lemma_replay_reads(pre.registers(), ts);
    assert forall|k: int| 0 <= k < ts.take(i).len() implies #[trigger] ts.take(i)[k] is Read by {
        assert(ts.take(i)[k] == ts[k]);
    }
    lemma_replay_reads(pre.registers(), ts.take(i));
}

/// A register keeps what was written to it for as long as it is not
/// written again, whatever is written to other registers meanwhile.
proof fn lemma_replay_keeps(
    registers: Seq<u16>,
    ts: Seq<Transaction>,
    j: int,
    m: int,
    reg: u8,
    val: u16,
)
    requires
        registers.len() == 32,
        reg <= LAST_REGISTER,
        0 <= j < m <= ts.len(),
        ts[j] == (Transaction::Write { reg, val }),
        forall|n: int| j < n < m ==> !writes_to(#[trigger] ts[n], reg),
    ensures
        replay(registers, ts.take(m)).len() == 32,
        replay(registers, ts.take(m))[reg as int] == val,
    decreases m - j,
{
    lemma_replay_len(registers, ts.take(m - 1));
    assert(ts.take(m).drop_last() =~= ts.take(m - 1));
    assert(ts.take(m).last() == ts[m - 1]);
    if m - 1 > j {
        lemma_replay_keeps(registers, ts, j, m - 1, reg, val);
        assert(!writes_to(ts[m - 1], reg));
    }
}

/// Writes within the thirty-two registers keep their number.
proof fn lemma_replay_len(registers: Seq<u16>, ts: Seq<Transaction>)
    requires
        registers.len() == 32,
    ensures
        replay(registers, ts).len() == 32,
    decreases ts.len(),
{
    if ts.len() > 0 {
        lemma_replay_len(registers, ts.drop_last());
    }
}

/// Loop-back fidelity: on the loop-back PHY, over any bus traffic, a
/// read of a register answers with all sixteen bits of the value last
/// written to it, whatever was written to other registers before,
/// between and after.
pub proof fn law_loopback_read_back(
    pre: LoopbackPhy,
    ts: Seq<Transaction>,
    post: LoopbackPhy,
    j: int,
    i: int,
    reg: u8,
    val: u16,
    got: u16,
)
    requires
        run(pre, ts, post),
        0 <= j < i < ts.len(),
        ts[j] == (Transaction::Write { reg, val }),
        ts[i] == (Transaction::Read { reg, val: got }),
        forall|n: int| j < n < i ==> !writes_to(#[trigger] ts[n], reg),
    ensures
        got == val,
{
    pre.lemma_registers();
    law_loopback_run(pre, ts, post, i);
    lemma_replay_keeps(pre.registers(), ts, j, i, reg, val);
}

} // verus!
