//! The station management interface: the bus over which the MAC reads
//! and writes the registers of the PHY.

use vstd::prelude::*;

verus! {

/// The highest register address on the management bus.
pub const LAST_REGISTER: u8 = 31;

/// One transaction on the management bus.
#[derive(Clone, Copy, PartialEq, Eq, Debug, Structural)]
pub enum Transaction {
    /// Register `reg` was read and the PHY answered `val`.
    Read { reg: u8, val: u16 },
    /// `val` was written to register `reg`.
    Write { reg: u8, val: u16 },
}

/// Station Management Interface (SMI) on an ethernet PHY.
///
/// Each call is one whole transaction against one register. What a read
/// returns is up to the PHY: a register may change by itself, and a value
/// written need not read back. An implementation says with `read_step`
/// and `write_step` what its transactions do; one that promises nothing
/// leaves them as they are.
pub trait StationManagement: Sized {
    /// Whether reading `val` from register `reg` can take the bus from
    /// `pre` to `post`.
    open spec fn read_step(pre: Self, reg: u8, val: u16, post: Self) -> bool {
        true
    }

    /// Whether writing `val` to register `reg` can take the bus from
    /// `pre` to `post`.
    open spec fn write_step(pre: Self, reg: u8, val: u16, post: Self) -> bool {
        true
    }

    /// Read a register over SMI.
    fn smi_read(&mut self, reg: u8) -> (val: u16)
        requires
            reg <= LAST_REGISTER,
        ensures
            Self::read_step(*old(self), reg, val, *final(self)),
    ;

    /// Write a register over SMI.
    fn smi_write(&mut self, reg: u8, val: u16)
        requires
            reg <= LAST_REGISTER,
        ensures
            Self::write_step(*old(self), reg, val, *final(self)),
    ;
}

/// Whether transaction `t` can take the bus from `pre` to `post`.
pub open spec fn step<S: StationManagement>(pre: S, t: Transaction, post: S) -> bool {
    match t {
        Transaction::Read { reg, val } => S::read_step(pre, reg, val, post),
        Transaction::Write { reg, val } => S::write_step(pre, reg, val, post),
    }
}

/// Whether the bus can pass through `states` as it makes the
/// transactions `ts`, one after the other: from `states[i]` to
/// `states[i + 1]` with `ts[i]`.
pub open spec fn chain<S: StationManagement>(states: Seq<S>, ts: Seq<Transaction>) -> bool {
    &&& states.len() == ts.len() + 1
    &&& forall|i: int| 0 <= i < ts.len() ==> step(states[i], #[trigger] ts[i], states[i + 1])
}

/// Whether the transactions `ts`, made one after the other, can take the
/// bus from `pre` to `post`.
pub open spec fn run<S: StationManagement>(pre: S, ts: Seq<Transaction>, post: S) -> bool {
    exists|states: Seq<S>| #[trigger] chain(states, ts) && states[0] == pre && states.last() == post
}

/// The transactions of the record `after` that the record `before` does
/// not have yet.
pub open spec fn added(before: Seq<Transaction>, after: Seq<Transaction>) -> Seq<Transaction> {
    after.skip(before.len() as int)
}

/// Whether `t` writes to register `reg`.
pub open spec fn writes_to(t: Transaction, reg: u8) -> bool {
    t matches Transaction::Write { reg: written, .. } && written == reg
}

/// Whether every transaction of `ts` is a read.
pub open spec fn only_reads(ts: Seq<Transaction>) -> bool {
    forall|i: int| 0 <= i < ts.len() ==> #[trigger] ts[i] is Read
}

/// One transaction is a run of one.
pub proof fn lemma_run_one<S: StationManagement>(pre: S, t: Transaction, post: S)
    requires
        step(pre, t, post),
    ensures
        run(pre, seq![t], post),
{
    assert(chain(seq![pre, post], seq![t]));
}

/// Two runs, the second from where the first ends, make one run.
pub proof fn lemma_run_concat<S: StationManagement>(
    pre: S,
    first: Seq<Transaction>,
    mid: S,
    second: Seq<Transaction>,
    post: S,
)
    requires
        run(pre, first, mid),
        run(mid, second, post),
    ensures
        run(pre, first + second, post),
{
    let a = choose|a: Seq<S>| #[trigger] chain(a, first) && a[0] == pre && a.last() == mid;
    let b = choose|b: Seq<S>| #[trigger] chain(b, second) && b[0] == mid && b.last() == post;
    let all = a + b.drop_first();
    let ts = first + second;
    assert forall|i: int| 0 <= i < ts.len() implies step(all[i], #[trigger] ts[i], all[i + 1]) by {
        if i < first.len() {
            assert(ts[i] == first[i]);
            assert(all[i] == a[i]);
            if i + 1 < a.len() {
                assert(all[i + 1] == a[i + 1]);
            }
        } else {
            let k = i - first.len();
            assert(ts[i] == second[k]);
            assert(all[i + 1] == b[k + 1]);
            if k == 0 {
                assert(all[i] == a.last());
            } else {
                assert(all[i] == b[k]);
            }
        }
    }
    assert(chain(all, ts));
}

/// One more transaction extends a run.
pub proof fn lemma_run_push<S: StationManagement>(
    pre: S,
    ts: Seq<Transaction>,
    mid: S,
    t: Transaction,
    post: S,
)
    requires
        run(pre, ts, mid),
        step(mid, t, post),
    ensures
        run(pre, ts.push(t), post),
{
    lemma_run_one(mid, t, post);
    lemma_run_concat(pre, ts, mid, seq![t], post);
    assert(ts + seq![t] =~= ts.push(t));
}

/// A management bus together with the record of what has gone over it.
/// PHY drivers talk to the bus through this, so that what they put on
/// the bus can be stated.
pub struct Bus<S: StationManagement> {
    station: S,
    log: Ghost<Seq<Transaction>>,
}

impl<S: StationManagement> Bus<S> {
    /// Every transaction made through this bus so far, oldest first.
    pub closed spec fn transactions(&self) -> Seq<Transaction> {
        self.log@
    }

    /// The bus underneath.
    pub closed spec fn station(&self) -> S {
        self.station
    }

    /// Takes `station` as the bus, with no transaction made yet.
    pub fn new(station: S) -> (bus: Self)
        ensures
            bus.station() == station,
            bus.transactions() == Seq::<Transaction>::empty(),
    {
        Bus { station, log: Ghost(Seq::empty()) }
    }

    /// Reads register `reg` of the bus underneath: one read transaction,
    /// whose answer is returned.
    pub fn smi_read(&mut self, reg: u8) -> (val: u16)
        requires
            reg <= LAST_REGISTER,
        ensures
            final(self).transactions() == old(self).transactions().push(
                Transaction::Read { reg, val },
            ),
            S::read_step(old(self).station(), reg, val, final(self).station()),
    {
        let val: u16 = self.station.smi_read(reg);
        proof {
            self.log@ = self.log@.push(Transaction::Read { reg, val });
        }
        val
    }

    /// Writes `val` to register `reg` of the bus underneath: one write
    /// transaction.
    pub fn smi_write(&mut self, reg: u8, val: u16)
        requires
            reg <= LAST_REGISTER,
        ensures
            final(self).transactions() == old(self).transactions().push(
                Transaction::Write { reg, val },
            ),
            S::write_step(old(self).station(), reg, val, final(self).station()),
    {
        self.station.smi_write(reg, val);
        proof {
            self.log@ = self.log@.push(Transaction::Write { reg, val });
        }
    }

    /// Gives the bus underneath back.
    pub fn into_station(self) -> (station: S)
        ensures
            station == self.station(),
    {
        self.station
    }
}

/// A PHY that is nothing but its thirty-two registers: each one keeps
/// the value last written to it, and reading changes nothing.
pub struct LoopbackPhy {
    registers: [u16; 32],
}

impl LoopbackPhy {
    /// What the registers hold, by address.
    pub closed spec fn registers(&self) -> Seq<u16> {
        self.registers@
    }

    /// There are thirty-two registers.
    pub proof fn lemma_registers(&self)
        ensures
            self.registers().len() == 32,
    {
    }

    /// A PHY whose registers all hold zero.
    pub fn new() -> (phy: Self)
        ensures
            phy.registers() == Seq::new(32, |i: int| 0u16),
    {
        let phy = LoopbackPhy { registers: [0u16; 32] };
        assert(phy.registers@ =~= Seq::new(32, |i: int| 0u16));
        phy
    }
}

impl StationManagement for LoopbackPhy {
    /// A read answers with what the register holds and changes nothing.
    open spec fn read_step(pre: Self, reg: u8, val: u16, post: Self) -> bool {
        &&& reg <= LAST_REGISTER
        &&& val == pre.registers()[reg as int]
        &&& post.registers() == pre.registers()
    }

    /// A write stores the value in the register and changes no other.
    open spec fn write_step(pre: Self, reg: u8, val: u16, post: Self) -> bool {
        &&& reg <= LAST_REGISTER
        &&& post.registers() == pre.registers().update(reg as int, val)
    }

    /// Returns what register `reg` holds.
    fn smi_read(&mut self, reg: u8) -> (val: u16)
        ensures
            val == old(self).registers()[reg as int],
            final(self).registers() == old(self).registers(),
    {
        let i: usize = reg as usize;
        self.registers[i]
    }

    /// Stores `val` in register `reg`.
    fn smi_write(&mut self, reg: u8, val: u16)
        ensures
            final(self).registers() == old(self).registers().update(reg as int, val),
    {
        let i: usize = reg as usize;
        self.registers[i] = val;
    }
}

} // verus!
