//! The device adapter: the non-blocking surface that a network stack
//! polls, and the single-use tokens it hands out.

use crate::packet::{MTU, TX_BUFFER_SIZE};
use crate::phy::PHY;
use crate::queue::PacketQueue;
use crate::rx::RDesRing;
use crate::smi::{added, lemma_run_concat, only_reads, run, Bus, StationManagement, Transaction};
use crate::tx::TDesRing;
use core::task::Context;
use embassy_net::driver::{Capabilities, Checksum, ChecksumCapabilities, LinkState};
use embassy_sync::waitqueue::AtomicWaker;
use vstd::prelude::*;

verus! {

/// `LinkState` of embassy-net's driver interface: `Down` or `Up`.
#[verifier::external_type_specification]
pub struct ExLinkState(LinkState);

/// `Capabilities` of embassy-net's driver interface: the largest frame,
/// the largest burst, and what is done about checksums.
#[verifier::external_type_specification]
pub struct ExCapabilities(Capabilities);

/// `ChecksumCapabilities` of embassy-net's driver interface, a field of
/// `Capabilities` that this driver leaves as it comes.
#[verifier::external_type_specification]
pub struct ExChecksumCapabilities(ChecksumCapabilities);

/// `Checksum` of embassy-net's driver interface, the type of the fields
/// of `ChecksumCapabilities`.
#[verifier::external_type_specification]
pub struct ExChecksum(Checksum);

/// Whether `checksum` leaves every checksum to software, to be verified
/// on receiving and computed on sending.
pub open spec fn software_checksums(checksum: ChecksumCapabilities) -> bool {
    &&& checksum.ipv4 is Both
    &&& checksum.udp is Both
    &&& checksum.tcp is Both
    &&& checksum.icmpv4 is Both
    &&& checksum.icmpv6 is Both
}

/// `Capabilities::default` of embassy-net's driver interface, which is
/// derived: the numeric limit is zero, the burst size is absent, and
/// each checksum field is the default of its type, which that crate
/// writes out as `Both`.
pub assume_specification[ <Capabilities as Default>::default ]() -> (caps: Capabilities)
    ensures
        caps.max_transmission_unit == 0,
        caps.max_burst_size is None,
        software_checksums(caps.checksum),
;

/// The right to take one received frame: the receive ring, borrowed
/// while a frame is known to be waiting in it.
pub struct RxToken<'a, 'd> {
    rx: &'a mut RDesRing<'d>,
}

/// The right to send one frame: the transmit ring, borrowed while a slot
/// is known to be free in it.
pub struct TxToken<'a, 'd> {
    tx: &'a mut TDesRing<'d>,
}

impl<'a, 'd> RxToken<'a, 'd> {
    /// The ring that the token has borrowed.
    pub closed spec fn ring(self) -> &'a mut RDesRing<'d> {
        self.rx
    }

    /// The ring is in order and a frame is waiting in it.
    pub open spec fn wf(self) -> bool {
        self.ring().wf() && self.ring()@.has_queued()
    }

    /// Lets `f` read and write over the bytes of the oldest frame
    /// received, then retires the frame's slot.
    pub fn consume<R, F>(self, f: F) -> (r: R) where F: FnOnce(&mut [u8]) -> R
        requires
            self.wf(),
            forall|b: &mut [u8]| b@ == self.ring()@.queue()[0] ==> #[trigger] call_requires(f, (b,)),
        ensures
            exists|b: &mut [u8]|
                {
                    &&& #[trigger] call_ensures(f, (b,), r)
                    &&& b@ == old(self.ring())@.queue()[0]
                    &&& final(self.ring())@ == old(self.ring())@.rewrite(final(b)@).pop()
                },
            final(self.ring())@.queue() == old(self.ring())@.queue().drop_first(),
            final(self.ring()).wf(),
    {
        let ghost before = self.rx@;
        let r = match self.rx.available() {
            Some(pkt) => {
                assert(pkt@ =~= before.queue()[0]);
                f(pkt)
            },
            None => vstd::pervasive::unreached(),
        };
        proof {
            self.rx@.lemma_pop();
        }
        self.rx.pop_packet();
        r
    }

    /// Gives the token back unused: the ring is as it was when the
    /// token was handed out.
    pub fn release(self)
        ensures
            *final(self.ring()) == *old(self.ring()),
    {
    }
}

impl<'a, 'd> TxToken<'a, 'd> {
    /// Gives the token back unused: the ring is as it was when the
    /// token was handed out.
    pub fn release(self)
        ensures
            *final(self.ring()) == *old(self.ring()),
    {
    }

    /// The ring that the token has borrowed.
    pub closed spec fn ring(self) -> &'a mut TDesRing<'d> {
        self.tx
    }

    /// The ring is in order and a slot is free in it.
    pub open spec fn wf(self) -> bool {
        self.ring().wf() && self.ring()@.has_vacant()
    }

    /// Lets `f` write a frame into the first `len` bytes of the free
    /// slot's buffer, then submits exactly those `len` bytes: they join
    /// the frames in flight as `f` left them.
    pub fn consume<R, F>(self, len: usize, f: F) -> (r: R) where F: FnOnce(&mut [u8]) -> R
        requires
            self.wf(),
            len <= TX_BUFFER_SIZE,
            forall|b: &mut [u8]|
                b@ == self.ring()@.data[self.ring()@.tail].subrange(0, len as int)
                    ==> #[trigger] call_requires(f, (b,)),
        ensures
            exists|b: &mut [u8]|
                {
                    &&& #[trigger] call_ensures(f, (b,), r)
                    &&& b@ == old(self.ring())@.data[old(self.ring())@.tail].subrange(0, len as int)
                    &&& final(b)@.len() == len
                    &&& final(self.ring())@ == old(self.ring())@.submit(final(b)@)
                    &&& final(self.ring())@.queue() == old(self.ring())@.queue().push(final(b)@)
                },
            final(self.ring()).wf(),
    {
        let ghost before = self.tx@;
        let r = match self.tx.available() {
            Some(pkt) => {
                let (frame, rest) = pkt.split_at_mut(len);
                proof {
                    assert(final(rest)@ == rest@);
                    assert((final(frame)@ + final(rest)@).len() == TX_BUFFER_SIZE);
                    before.lemma_submit(final(frame)@);
                }
                f(frame)
            },
            None => vstd::pervasive::unreached(),
        };
        self.tx.transmit(len);
        r
    }
}

/// The link state that the outcome of a poll of the PHY stands for.
pub open spec fn link_state(up: bool) -> LinkState {
    if up {
        LinkState::Up
    } else {
        LinkState::Down
    }
}

/// The link state that the outcome of a poll of the PHY stands for.
pub fn link_state_of(up: bool) -> (state: LinkState)
    ensures
        state == link_state(up),
{
    if up {
        LinkState::Up
    } else {
        LinkState::Down
    }
}

/// What a device with a transmit ring of `burst` slots can do: frames of
/// up to `MTU` bytes, in bursts of up to `burst` frames, with every
/// checksum left to software.
pub fn capabilities_of(burst: usize) -> (caps: Capabilities)
    ensures
        caps.max_transmission_unit == MTU,
        caps.max_burst_size == Some(burst),
        software_checksums(caps.checksum),
{
    let mut caps = Capabilities::default();
    caps.max_transmission_unit = MTU;
    caps.max_burst_size = Some(burst);
    caps
}

/// The Ethernet device: its two rings, the management bus to its PHY,
/// its hardware address, and the slot in which the waiting task is
/// registered.
pub struct Ethernet<'d, S: StationManagement, P: PHY> {
    tx: TDesRing<'d>,
    rx: RDesRing<'d>,
    bus: Bus<S>,
    phy: P,
    reset_done: bool,
    mac_addr: [u8; 6],
    waker: &'d AtomicWaker,
}

impl<'d, S: StationManagement, P: PHY> StationManagement for Ethernet<'d, S, P> {
    /// A read through the device is one read on its bus, recorded; the
    /// rings and the address are untouched.
    open spec fn read_step(pre: Self, reg: u8, val: u16, post: Self) -> bool {
        &&& S::read_step(pre.station(), reg, val, post.station())
        &&& post.transactions() == pre.transactions().push(Transaction::Read { reg, val })
        &&& post.untouched_since(pre)
    }

    /// A write through the device is one write on its bus, recorded; the
    /// rings and the address are untouched.
    open spec fn write_step(pre: Self, reg: u8, val: u16, post: Self) -> bool {
        &&& S::write_step(pre.station(), reg, val, post.station())
        &&& post.transactions() == pre.transactions().push(Transaction::Write { reg, val })
        &&& post.untouched_since(pre)
    }

    /// Reads a register of the PHY over the device's bus.
    fn smi_read(&mut self, reg: u8) -> (val: u16) {
        self.bus.smi_read(reg)
    }

    /// Writes a register of the PHY over the device's bus.
    fn smi_write(&mut self, reg: u8, val: u16) {
        self.bus.smi_write(reg, val)
    }
}

impl<'d, S: StationManagement, P: PHY> Ethernet<'d, S, P> {
    /// Both rings are in order.
    pub open spec fn wf(&self) -> bool {
        self.tx().wf() && self.rx().wf()
    }

    /// The transmit ring.
    pub closed spec fn tx(&self) -> TDesRing<'d> {
        self.tx
    }

    /// The receive ring.
    pub closed spec fn rx(&self) -> RDesRing<'d> {
        self.rx
    }

    /// Every transaction made on the device's management bus so far.
    pub closed spec fn transactions(&self) -> Seq<Transaction> {
        self.bus.transactions()
    }

    /// The management bus underneath.
    pub closed spec fn station(&self) -> S {
        self.bus.station()
    }

    /// Whether the PHY came out of reset when the device was brought up.
    pub closed spec fn reset_done(&self) -> bool {
        self.reset_done
    }

    /// Whether the rings, the hardware address and the outcome of the
    /// reset are as they are in `pre`.
    pub open spec fn untouched_since(&self, pre: Self) -> bool {
        &&& self.tx() == pre.tx()
        &&& self.rx() == pre.rx()
        &&& self.ethernet_address_spec() == pre.ethernet_address_spec()
        &&& self.reset_done() == pre.reset_done()
    }

    /// The hardware address of the device.
    pub closed spec fn ethernet_address_spec(&self) -> [u8; 6] {
        self.mac_addr
    }

    /// Brings the device up over `queue`: lends its two halves out as
    /// rings with nothing queued, resets the PHY over `station` and then
    /// initialises it, and takes `mac_addr` as the hardware address and
    /// `waker` as the slot for the waiting task. Whether the PHY came out
    /// of reset is kept for `phy_reset_done`.
    pub fn new<const TX: usize, const RX: usize>(
        queue: &'d mut PacketQueue<TX, RX>,
        station: S,
        phy: P,
        mac_addr: [u8; 6],
        waker: &'d AtomicWaker,
    ) -> (device: Self)
        requires
            TX > 0,
            RX > 0,
        ensures
            device.wf(),
            device.tx()@.capacity() == TX,
            device.tx()@.count() == 0,
            device.tx()@.tail == 0,
            device.tx()@.data == old(queue).tx_buffers(),
            device.rx()@.capacity() == RX,
            device.rx()@.count() == 0,
            device.rx()@.head == 0,
            device.rx()@.data == old(queue).rx_buffers(),
            device.ethernet_address_spec() == mac_addr,
            run(station, device.transactions(), device.station()),
            exists|k: int|
                {
                    &&& 0 <= k <= device.transactions().len()
                    &&& P::reset_traffic(#[trigger] device.transactions().take(k), device.reset_done())
                    &&& P::init_traffic(device.transactions().skip(k))
                },
    {
        let (tx, rx) = queue.split();
        let mut bus = Bus::new(station);
        let reset_done: bool = P::phy_reset(&mut bus);
        let ghost s1 = bus.station();
        let ghost t1 = bus.transactions();
        P::phy_init(&mut bus);
        proof {
            let t2 = bus.transactions();
            let empty = Seq::<Transaction>::empty();
            assert(added(empty, t1) =~= t1);
            assert(t1 =~= t2.subrange(0, t1.len() as int));
            assert(t2.take(t1.len() as int) =~= t1);
            assert(added(t1, t2) == t2.skip(t1.len() as int));
            lemma_run_concat(station, t1, s1, added(t1, t2), bus.station());
            assert(t1 + added(t1, t2) =~= t2);
        }
        Ethernet { tx, rx, bus, phy, reset_done, mac_addr, waker }
    }

    /// Whether the PHY came out of reset when the device was brought up.
    pub fn phy_reset_done(&self) -> (done: bool)
        ensures
            done == self.reset_done(),
    {
        self.reset_done
    }

    /// Registers the polling task, then hands out a token for the oldest
    /// frame received together with a token for a free transmit slot, if
    /// there is a frame and there is a slot; `None` otherwise, with the
    /// rings untouched.
    pub fn receive<'a>(&'a mut self, cx: &mut Context) -> (tokens: Option<
        (RxToken<'a, 'd>, TxToken<'a, 'd>),
    >)
        requires
            old(self).wf(),
        ensures
            tokens is Some == (old(self).rx()@.has_queued() && old(self).tx()@.has_vacant()),
            tokens is None ==> *final(self) == *old(self),
            tokens matches Some((rx, tx)) ==> {
                &&& rx.wf()
                &&& tx.wf()
                &&& *rx.ring() == old(self).rx()
                &&& *tx.ring() == old(self).tx()
                &&& final(self).rx() == *final(rx.ring())
                &&& final(self).tx() == *final(tx.ring())
            },
            final(self).transactions() == old(self).transactions(),
            final(self).station() == old(self).station(),
            final(self).ethernet_address_spec() == old(self).ethernet_address_spec(),
            final(self).reset_done() == old(self).reset_done(),
    {
        self.waker.register(cx.waker());
        if self.rx.ready() && self.tx.ready() {
            Some((RxToken { rx: &mut self.rx }, TxToken { tx: &mut self.tx }))
        } else {
            None
        }
    }

    /// Registers the polling task, then hands out a token for a free
    /// transmit slot, if there is one; `None` otherwise, with the rings
    /// untouched.
    pub fn transmit<'a>(&'a mut self, cx: &mut Context) -> (token: Option<TxToken<'a, 'd>>)
        requires
            old(self).wf(),
        ensures
            token is Some == old(self).tx()@.has_vacant(),
            token is None ==> *final(self) == *old(self),
            token matches Some(tx) ==> {
                &&& tx.wf()
                &&& *tx.ring() == old(self).tx()
                &&& final(self).tx() == *final(tx.ring())
                &&& final(self).rx() == old(self).rx()
            },
            final(self).transactions() == old(self).transactions(),
            final(self).station() == old(self).station(),
            final(self).ethernet_address_spec() == old(self).ethernet_address_spec(),
            final(self).reset_done() == old(self).reset_done(),
    {
        self.waker.register(cx.waker());
        if self.tx.ready() {
            Some(TxToken { tx: &mut self.tx })
        } else {
            None
        }
    }

    /// The frame size and the burst size that the device supports: `MTU`
    /// bytes, and as many frames as the transmit ring has slots. Every
    /// checksum is left to software.
    pub fn capabilities(&self) -> (caps: Capabilities)
        requires
            self.wf(),
        ensures
            caps.max_transmission_unit == MTU,
            caps.max_burst_size == Some(self.tx()@.capacity() as usize),
            software_checksums(caps.checksum),
    {
        capabilities_of(self.tx.len())
    }

    /// Wakes the polling task, lets the PHY's driver poll the link once
    /// over the device's bus, and reports the link as up exactly when the
    /// driver reads the transactions of this poll as a link that is up.
    /// The poll only reads; the rings are untouched.
    pub fn link_state(&mut self, cx: &mut Context) -> (state: LinkState)
        ensures
            old(self).transactions().is_prefix_of(final(self).transactions()),
            run(
                old(self).station(),
                added(old(self).transactions(), final(self).transactions()),
                final(self).station(),
            ),
            only_reads(added(old(self).transactions(), final(self).transactions())),
            P::poll_traffic(added(old(self).transactions(), final(self).transactions())),
            state == link_state(
                P::link_up(added(old(self).transactions(), final(self).transactions())),
            ),
            final(self).untouched_since(*old(self)),
    {
        cx.waker().wake_by_ref();
        let up: bool = P::poll_link(&mut self.bus);
        link_state_of(up)
    }

    /// The hardware address of the device.
    pub fn ethernet_address(&self) -> (address: [u8; 6])
        ensures
            address == self.ethernet_address_spec(),
    {
        self.mac_addr
    }

    /// The transmit ring, for whoever plays the device's side of it.
    pub fn tx_ring(&mut self) -> (ring: &mut TDesRing<'d>)
        ensures
            *ring == old(self).tx(),
            final(self).tx() == *final(ring),
            final(self).rx() == old(self).rx(),
            final(self).ethernet_address_spec() == old(self).ethernet_address_spec(),
            final(self).reset_done() == old(self).reset_done(),
            final(self).transactions() == old(self).transactions(),
            final(self).station() == old(self).station(),
    {
        &mut self.tx
    }

    /// The receive ring, for whoever plays the device's side of it.
    pub fn rx_ring(&mut self) -> (ring: &mut RDesRing<'d>)
        ensures
            *ring == old(self).rx(),
            final(self).rx() == *final(ring),
            final(self).tx() == old(self).tx(),
            final(self).ethernet_address_spec() == old(self).ethernet_address_spec(),
            final(self).reset_done() == old(self).reset_done(),
            final(self).transactions() == old(self).transactions(),
            final(self).station() == old(self).station(),
    {
        &mut self.rx
    }

    /// What the interrupt handler does when the device reports that a
    /// transfer is complete: wakes the task registered last.
    pub fn on_interrupt(&self) {
        self.waker.wake();
    }
}

} // verus!
