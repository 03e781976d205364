//! PHY drivers: reset, initialisation and link polling for a
//! physical-layer chip, written against the management bus alone.

use crate::smi::{
    added, lemma_run_one, lemma_run_push, only_reads, run, Bus, StationManagement, Transaction,
};
use vstd::prelude::*;

verus! {

/// Traits for an Ethernet PHY: what a driver does with the chip, over
/// the management bus alone. What the chip answers decides the results;
/// a driver says with `reset_traffic`, `init_traffic`, `poll_traffic`
/// and `link_up` what it puts on the bus and how it reads the answers. Whatever the driver,
/// the transactions it adds to the record are those it has made on the
/// bus underneath, one after the other.
pub trait PHY {
    /// Whether `traffic` is what a reset of this chip puts on the bus,
    /// ending with the chip out of reset or not, as `done` says.
    spec fn reset_traffic(traffic: Seq<Transaction>, done: bool) -> bool;

    /// Whether `traffic` is what the initialisation of this chip puts
    /// on the bus.
    spec fn init_traffic(traffic: Seq<Transaction>) -> bool;

    /// Whether `poll` is what one poll of the link puts on the bus.
    spec fn poll_traffic(poll: Seq<Transaction>) -> bool;

    /// What this chip's driver concludes from the transactions of one
    /// poll of the link: whether they show a link that is ready.
    spec fn link_up(poll: Seq<Transaction>) -> bool;

    /// Reset PHY and wait for it to come out of reset. Returns whether it
    /// did before the driver gave up.
    fn phy_reset<S: StationManagement>(sm: &mut Bus<S>) -> (done: bool)
        ensures
            old(sm).transactions().is_prefix_of(final(sm).transactions()),
            run(
                old(sm).station(),
                added(old(sm).transactions(), final(sm).transactions()),
                final(sm).station(),
            ),
            Self::reset_traffic(added(old(sm).transactions(), final(sm).transactions()), done),
    ;

    /// PHY initialisation.
    fn phy_init<S: StationManagement>(sm: &mut Bus<S>)
        ensures
            old(sm).transactions().is_prefix_of(final(sm).transactions()),
            run(
                old(sm).station(),
                added(old(sm).transactions(), final(sm).transactions()),
                final(sm).station(),
            ),
            Self::init_traffic(added(old(sm).transactions(), final(sm).transactions())),
    ;

    /// Poll link to see if it is up and FD with 100Mbps. A poll only
    /// reads, and the answer rests on what went over the bus during this
    /// poll and on nothing else: it is `link_up` of the transactions that
    /// the poll has added to the record.
    fn poll_link<S: StationManagement>(sm: &mut Bus<S>) -> (up: bool)
        ensures
            old(sm).transactions().is_prefix_of(final(sm).transactions()),
            run(
                old(sm).station(),
                added(old(sm).transactions(), final(sm).transactions()),
                final(sm).station(),
            ),
            only_reads(added(old(sm).transactions(), final(sm).transactions())),
            Self::poll_traffic(added(old(sm).transactions(), final(sm).transactions())),
            up == Self::link_up(added(old(sm).transactions(), final(sm).transactions())),
    ;
}

/// Basic control register.
pub const PHY_REG_BCR: u8 = 0x00;

/// Basic status register.
pub const PHY_REG_BSR: u8 = 0x01;

/// Register that selects which extended register is accessed, and how.
pub const PHY_REG_CTL: u8 = 0x0D;

/// Register that carries the address or the data of an extended access.
pub const PHY_REG_ADDAR: u8 = 0x0E;

/// Special status register.
pub const PHY_REG_SSR: u8 = 0x1F;

/// Extended register: wake-up control and status.
pub const PHY_REG_WUCSR: u16 = 0x8010;

/// Control word that announces the address of an extended register.
pub const PHY_CTL_ADDRESS: u16 = 0x0003;

/// Control word that announces the data for an extended register.
pub const PHY_CTL_DATA: u16 = 0x4003;

/// Basic control: restart auto-negotiation.
pub const PHY_REG_BCR_ANRST: u16 = 0x0200;

/// Basic control: enable auto-negotiation.
pub const PHY_REG_BCR_AN: u16 = 0x1000;

/// Basic control: select 100 Mbps.
pub const PHY_REG_BCR_100M: u16 = 0x2000;

/// Basic control: reset; the chip clears the bit when it is done.
pub const PHY_REG_BCR_RESET: u16 = 0x8000;

/// Basic status: the link is up.
pub const PHY_REG_BSR_UP: u16 = 0x0004;

/// Basic status: auto-negotiation is complete.
pub const PHY_REG_BSR_ANDONE: u16 = 0x0020;

/// Special status: auto-negotiation is complete.
pub const PHY_REG_SSR_ANDONE: u16 = 0x1000;

/// Special status: the field that holds the negotiated speed and duplex.
pub const PHY_REG_SSR_SPEED: u16 = 0x001C;

/// Special status: the speed field reads 100 Mbps, full duplex.
pub const PHY_REG_SSR_100BASE_FD: u16 = 0x0018;

/// How often `phy_reset` reads the control register before it gives up.
pub const RESET_POLLS: u32 = 1_000_000;

/// Whether the two status words report a link that is ready: negotiated,
/// up, and running at 100 Mbps in full duplex.
pub open spec fn link_ready(bsr: u16, ssr: u16) -> bool {
    &&& bsr & PHY_REG_BSR_ANDONE != 0
    &&& bsr & PHY_REG_BSR_UP != 0
    &&& ssr & PHY_REG_SSR_ANDONE != 0
    &&& ssr & PHY_REG_SSR_SPEED == PHY_REG_SSR_100BASE_FD
}

/// A link that is reported down is not ready, whatever speed and duplex
/// are reported with it; a link that is reported up, negotiated, and at
/// 100 Mbps in full duplex is ready, whatever the other bits say.
pub proof fn lemma_link_ready(bsr: u16, ssr: u16)
    ensures
        bsr & PHY_REG_BSR_UP == 0 ==> !link_ready(bsr, ssr),
        link_ready(bsr | PHY_REG_BSR_UP | PHY_REG_BSR_ANDONE, (ssr & !PHY_REG_SSR_SPEED)
            | PHY_REG_SSR_ANDONE | PHY_REG_SSR_100BASE_FD),
{
    assert((bsr | 0x0004u16 | 0x0020u16) & 0x0020u16 != 0) by (bit_vector);
    assert((bsr | 0x0004u16 | 0x0020u16) & 0x0004u16 != 0) by (bit_vector);
    assert(((ssr & !0x001Cu16) | 0x1000u16 | 0x0018u16) & 0x1000u16 != 0) by (bit_vector);
    assert(((ssr & !0x001Cu16) | 0x1000u16 | 0x0018u16) & 0x001Cu16 == 0x0018u16) by (bit_vector);
}

/// The transactions of one poll of the link, in which the PHY answers
/// `bsr` and `ssr`.
pub open spec fn link_poll(bsr: u16, ssr: u16) -> Seq<Transaction> {
    seq![
        Transaction::Read { reg: PHY_REG_BSR, val: bsr },
        Transaction::Read { reg: PHY_REG_SSR, val: ssr },
    ]
}

/// The transactions of one write to an extended register.
pub open spec fn extended_write(reg_addr: u16, reg_data: u16) -> Seq<Transaction> {
    seq![
        Transaction::Write { reg: PHY_REG_CTL, val: PHY_CTL_ADDRESS },
        Transaction::Write { reg: PHY_REG_ADDAR, val: reg_addr },
        Transaction::Write { reg: PHY_REG_CTL, val: PHY_CTL_DATA },
        Transaction::Write { reg: PHY_REG_ADDAR, val: reg_data },
    ]
}

/// Whether `reads` is what waiting for the reset to finish puts on the
/// bus: reads of the control register, none but possibly the last of
/// which finds the reset bit clear.
pub open spec fn reset_wait(reads: Seq<Transaction>) -> bool {
    forall|i: int|
        0 <= i < reads.len() ==> (#[trigger] reads[i] matches Transaction::Read { reg, val } && reg
            == PHY_REG_BCR && (i + 1 < reads.len() ==> val & PHY_REG_BCR_RESET == PHY_REG_BCR_RESET))
}

/// Driver for a PHY that follows the standard register layout and
/// reports the negotiated mode in the special status register.
pub struct GenericSMI;

impl GenericSMI {
    /// Decides from the basic and the special status word whether the
    /// link is ready.
    pub fn link_ready(bsr: u16, ssr: u16) -> (ready: bool)
        ensures
            ready == link_ready(bsr, ssr),
    {
        // No link without autonegotiate
        if bsr & PHY_REG_BSR_ANDONE == 0 {
            return false;
        }
        // No link if link is down
        if bsr & PHY_REG_BSR_UP == 0 {
            return false;
        }
        // No link if autonegotiate incomplete
        if ssr & PHY_REG_SSR_ANDONE == 0 {
            return false;
        }
        // No link if other side isn't 100Mbps full duplex
        if ssr & PHY_REG_SSR_SPEED != PHY_REG_SSR_100BASE_FD {
            return false;
        }
        true
    }

    /// Writes a value to an extended register.
    pub fn smi_write_ext<S: StationManagement>(sm: &mut Bus<S>, reg_addr: u16, reg_data: u16)
        ensures
            final(sm).transactions() == old(sm).transactions() + extended_write(reg_addr, reg_data),
            run(old(sm).station(), extended_write(reg_addr, reg_data), final(sm).station()),
    {
        let ghost s0 = sm.station();
        sm.smi_write(PHY_REG_CTL, PHY_CTL_ADDRESS);
        let ghost s1 = sm.station();
        sm.smi_write(PHY_REG_ADDAR, reg_addr);
        let ghost s2 = sm.station();
        sm.smi_write(PHY_REG_CTL, PHY_CTL_DATA);
        let ghost s3 = sm.station();
        sm.smi_write(PHY_REG_ADDAR, reg_data);
        proof {
            let w0 = Transaction::Write { reg: PHY_REG_CTL, val: PHY_CTL_ADDRESS };
            let w1 = Transaction::Write { reg: PHY_REG_ADDAR, val: reg_addr };
            let w2 = Transaction::Write { reg: PHY_REG_CTL, val: PHY_CTL_DATA };
            let w3 = Transaction::Write { reg: PHY_REG_ADDAR, val: reg_data };
            lemma_run_one(s0, w0, s1);
            lemma_run_push(s0, seq![w0], s1, w1, s2);
            lemma_run_push(s0, seq![w0].push(w1), s2, w2, s3);
            lemma_run_push(s0, seq![w0].push(w1).push(w2), s3, w3, sm.station());
            assert(seq![w0].push(w1).push(w2).push(w3) =~= extended_write(reg_addr, reg_data));
            assert(sm.transactions() =~= old(sm).transactions() + extended_write(
                reg_addr,
                reg_data,
            ));
        }
    }
}

impl PHY for GenericSMI {
    /// One write that sets the reset bit, then at least one and at most
    /// `RESET_POLLS` reads of the control register, none but possibly the
    /// last of which finds the bit clear; `done` says whether the last
    /// one did.
    open spec fn reset_traffic(traffic: Seq<Transaction>, done: bool) -> bool {
        &&& 1 < traffic.len() <= RESET_POLLS + 1
        &&& traffic[0] == (Transaction::Write { reg: PHY_REG_BCR, val: PHY_REG_BCR_RESET })
        &&& reset_wait(traffic.skip(1))
        &&& done == (traffic.last() matches Transaction::Read { reg, val } && val & PHY_REG_BCR_RESET
            != PHY_REG_BCR_RESET)
    }

    /// The write to the extended wake-up register that clears it, then
    /// the write that enables and restarts auto-negotiation at 100 Mbps.
    open spec fn init_traffic(traffic: Seq<Transaction>) -> bool {
        traffic == extended_write(PHY_REG_WUCSR, 0).push(
            Transaction::Write {
                reg: PHY_REG_BCR,
                val: PHY_REG_BCR_AN | PHY_REG_BCR_ANRST | PHY_REG_BCR_100M,
            },
        )
    }

    /// One read of the basic status word, then one read of the special
    /// status word.
    open spec fn poll_traffic(poll: Seq<Transaction>) -> bool {
        &&& poll.len() == 2
        &&& poll[0] matches Transaction::Read { reg: first, .. }
        &&& poll[1] matches Transaction::Read { reg: second, .. }
        &&& first == PHY_REG_BSR
        &&& second == PHY_REG_SSR
    }

    /// The poll read the basic status word, then the special status
    /// word, and the two report a link that is ready.
    open spec fn link_up(poll: Seq<Transaction>) -> bool {
        &&& poll.len() == 2
        &&& poll[0] matches Transaction::Read { reg: first, val: bsr }
        &&& poll[1] matches Transaction::Read { reg: second, val: ssr }
        &&& first == PHY_REG_BSR
        &&& second == PHY_REG_SSR
        &&& link_ready(bsr, ssr)
    }

    /// Sets the reset bit, then reads the control register until the bit
    /// is clear, at most `RESET_POLLS` times.
    fn phy_reset<S: StationManagement>(sm: &mut Bus<S>) -> (done: bool) {
        let ghost s0 = sm.station();
        let ghost before = sm.transactions();
        let ghost set = Transaction::Write { reg: PHY_REG_BCR, val: PHY_REG_BCR_RESET };
        sm.smi_write(PHY_REG_BCR, PHY_REG_BCR_RESET);
        let ghost mut reads: Seq<Transaction> = Seq::empty();
        proof {
            lemma_run_one(s0, set, sm.station());
            assert(seq![set] + reads =~= seq![set]);
            assert(sm.transactions() =~= before + (seq![set] + reads));
        }
        let mut polls: u32 = 0;
        let mut done: bool = false;
        while !done && polls < RESET_POLLS
            invariant
                polls <= RESET_POLLS,
                reads.len() == polls,
                sm.transactions() == before + (seq![set] + reads),
                run(s0, seq![set] + reads, sm.station()),
                reset_wait(reads),
                !done ==> reset_wait(
                    reads.push(Transaction::Read { reg: PHY_REG_BCR, val: PHY_REG_BCR_RESET }),
                ),
                done ==> polls > 0,
                polls > 0 ==> done == (reads.last() matches Transaction::Read { reg, val } && val
                    & PHY_REG_BCR_RESET != PHY_REG_BCR_RESET),
            decreases RESET_POLLS - polls + (if done { 0int } else { 1int }),
        {
            let ghost at = sm.station();
            let val: u16 = sm.smi_read(PHY_REG_BCR);
            let ghost earlier = reads;
            proof {
                let read = Transaction::Read { reg: PHY_REG_BCR, val };
                reads = reads.push(read);
                lemma_run_push(s0, seq![set] + earlier, at, read, sm.station());
                assert((seq![set] + earlier).push(read) =~= seq![set] + reads);
                assert(sm.transactions() =~= before + (seq![set] + reads));
                assert forall|i: int| 0 <= i < reads.len() implies (#[trigger] reads[i] matches Transaction::Read {
                    reg,
                    val,
                } && reg == PHY_REG_BCR && (i + 1 < reads.len() ==> val & PHY_REG_BCR_RESET
                    == PHY_REG_BCR_RESET)) by {
                    let probe = earlier.push(
                        Transaction::Read { reg: PHY_REG_BCR, val: PHY_REG_BCR_RESET },
                    );
                    if i < earlier.len() {
                        assert(probe[i] == earlier[i]);
                    }
                }
            }
            done = val & PHY_REG_BCR_RESET != PHY_REG_BCR_RESET;
            polls = polls + 1;
            proof {
                if !done {
                    let next = reads.push(
                        Transaction::Read { reg: PHY_REG_BCR, val: PHY_REG_BCR_RESET },
                    );
                    assert forall|i: int| 0 <= i < next.len() implies (#[trigger] next[i] matches Transaction::Read {
                        reg,
                        val,
                    } && reg == PHY_REG_BCR && (i + 1 < next.len() ==> val & PHY_REG_BCR_RESET
                        == PHY_REG_BCR_RESET)) by {
                        if i < reads.len() {
                            assert(next[i] == reads[i]);
                        }
                    }
                }
            }
        }
        proof {
            let traffic = seq![set] + reads;
            assert(polls > 0);
            assert(added(before, sm.transactions()) =~= traffic);
            assert(before =~= sm.transactions().subrange(0, before.len() as int));
            assert(traffic.skip(1) =~= reads);
            assert(traffic.last() == reads.last());
            assert(traffic[0] == set);
        }
        done
    }

    /// Clears the wake-up control register, then enables and restarts
    /// auto-negotiation at 100 Mbps.
    fn phy_init<S: StationManagement>(sm: &mut Bus<S>) {
        let ghost s0 = sm.station();
        let ghost before = sm.transactions();
        // Clear WU CSR
        Self::smi_write_ext(sm, PHY_REG_WUCSR, 0);
        let ghost s1 = sm.station();
        // Enable auto-negotiation
        sm.smi_write(PHY_REG_BCR, PHY_REG_BCR_AN | PHY_REG_BCR_ANRST | PHY_REG_BCR_100M);
        proof {
            let enable = Transaction::Write {
                reg: PHY_REG_BCR,
                val: PHY_REG_BCR_AN | PHY_REG_BCR_ANRST | PHY_REG_BCR_100M,
            };
            let traffic = extended_write(PHY_REG_WUCSR, 0).push(enable);
            lemma_run_push(s0, extended_write(PHY_REG_WUCSR, 0), s1, enable, sm.station());
            assert(sm.transactions() =~= before + traffic);
            assert(added(before, sm.transactions()) =~= traffic);
            assert(before =~= sm.transactions().subrange(0, before.len() as int));
        }
    }

    /// Reads the basic status word, then the special status word, and
    /// decides from the two.
    fn poll_link<S: StationManagement>(sm: &mut Bus<S>) -> (up: bool)
        ensures
            exists|bsr: u16, ssr: u16|
                {
                    &&& final(sm).transactions() == old(sm).transactions() + #[trigger] link_poll(
                        bsr,
                        ssr,
                    )
                    &&& up == link_ready(bsr, ssr)
                },
    {
        let ghost s0 = sm.station();
        let bsr: u16 = sm.smi_read(PHY_REG_BSR);
        let ghost s1 = sm.station();
        let ssr: u16 = sm.smi_read(PHY_REG_SSR);
        proof {
            let before = old(sm).transactions();
            let first = Transaction::Read { reg: PHY_REG_BSR, val: bsr };
            let second = Transaction::Read { reg: PHY_REG_SSR, val: ssr };
            lemma_run_one(s0, first, s1);
            lemma_run_push(s0, seq![first], s1, second, sm.station());
            assert(seq![first].push(second) =~= link_poll(bsr, ssr));
            assert(sm.transactions() =~= before + link_poll(bsr, ssr));
            assert(added(before, sm.transactions()) =~= link_poll(bsr, ssr));
            assert(before =~= sm.transactions().subrange(0, before.len() as int));
        }
        Self::link_ready(bsr, ssr)
    }
}

} // verus!
