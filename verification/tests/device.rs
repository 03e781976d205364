use std::sync::atomic::{AtomicUsize, Ordering};
use std::sync::Arc;
use std::task::{Context, Wake, Waker};

use embassy_net::driver::{Capabilities, Checksum, LinkState};
use embassy_sync::waitqueue::AtomicWaker;
use eth_mac::device::{capabilities_of, link_state_of, Ethernet};
use eth_mac::phy::{GenericSMI, PHY_REG_BSR, PHY_REG_SSR};
use eth_mac::queue::PacketQueue;
use eth_mac::smi::{LoopbackPhy, StationManagement};

struct Task {
    wakes: AtomicUsize,
}

impl Task {
    fn new() -> Arc<Task> {
        Arc::new(Task { wakes: AtomicUsize::new(0) })
    }

    fn wakes(&self) -> usize {
        self.wakes.load(Ordering::SeqCst)
    }
}

impl Wake for Task {
    fn wake(self: Arc<Self>) {
        self.wakes.fetch_add(1, Ordering::SeqCst);
    }
}

const MAC: [u8; 6] = [0x00, 0x00, 0xde, 0xad, 0xbe, 0xef];

fn device<'d, const TX: usize, const RX: usize>(
    queue: &'d mut PacketQueue<TX, RX>,
    slot: &'d AtomicWaker,
) -> Ethernet<'d, LoopbackPhy, GenericSMI> {
    Ethernet::new(queue, LoopbackPhy::new(), GenericSMI, MAC, slot)
}

#[test]
fn third_transmit_on_depth_two_is_not_ready() {
    let slot = AtomicWaker::new();
    let mut queue = PacketQueue::<2, 2>::new();
    let mut eth = device(&mut queue, &slot);
    let task = Task::new();
    let waker = Waker::from(task.clone());
    let mut cx = Context::from_waker(&waker);

    let first_slot = eth.tx_ring().index();
    let token = eth.transmit(&mut cx).expect("first slot");
    assert_eq!(token.consume(3, |b| { b.copy_from_slice(&[1, 2, 3]); b.len() }), 3);
    let second_slot = eth.tx_ring().index();
    let token = eth.transmit(&mut cx).expect("second slot");
    token.consume(1, |b| b[0] = 4);
    assert_ne!(first_slot, second_slot);
    assert!(eth.transmit(&mut cx).is_none());

    assert_eq!(eth.tx_ring().pending(), Some(&[1u8, 2, 3][..]));
    assert!(eth.tx_ring().complete());
    assert_eq!(eth.tx_ring().pending(), Some(&[4u8][..]));
}

#[test]
fn receive_needs_a_transmit_slot_too() {
    let slot = AtomicWaker::new();
    let mut queue = PacketQueue::<1, 2>::new();
    let mut eth = device(&mut queue, &slot);
    let task = Task::new();
    let waker = Waker::from(task.clone());
    let mut cx = Context::from_waker(&waker);

    eth.transmit(&mut cx).expect("free slot").consume(0, |_| ());
    assert!(eth.rx_ring().deliver(&[1, 2, 3]));
    assert!(eth.rx_ring().ready());
    assert!(eth.receive(&mut cx).is_none());

    assert!(eth.tx_ring().complete());
    let (rx, tx) = eth.receive(&mut cx).expect("both ready");
    let got = rx.consume(|frame| frame.to_vec());
    assert_eq!(got, vec![1, 2, 3]);
    tx.consume(3, |b| b.copy_from_slice(&got));
    assert_eq!(eth.tx_ring().pending(), Some(&[1u8, 2, 3][..]));
    assert!(!eth.rx_ring().ready());
}

#[test]
fn receive_without_a_frame_is_not_ready() {
    let slot = AtomicWaker::new();
    let mut queue = PacketQueue::<2, 2>::new();
    let mut eth = device(&mut queue, &slot);
    let task = Task::new();
    let waker = Waker::from(task.clone());
    let mut cx = Context::from_waker(&waker);
    assert!(eth.receive(&mut cx).is_none());
    assert!(eth.transmit(&mut cx).is_some());
}

#[test]
fn rx_token_retires_exactly_one_frame() {
    let slot = AtomicWaker::new();
    let mut queue = PacketQueue::<2, 2>::new();
    let mut eth = device(&mut queue, &slot);
    let task = Task::new();
    let waker = Waker::from(task.clone());
    let mut cx = Context::from_waker(&waker);
    assert!(eth.rx_ring().deliver(&[1]));
    assert!(eth.rx_ring().deliver(&[2, 2]));
    let (rx, _tx) = eth.receive(&mut cx).expect("ready");
    assert_eq!(rx.consume(|f| f.len()), 1);
    let (rx, _tx) = eth.receive(&mut cx).expect("ready");
    assert_eq!(rx.consume(|f| f.len()), 2);
    assert!(eth.receive(&mut cx).is_none());
}

#[test]
fn completion_wakes_the_task_registered_last_once() {
    let slot = AtomicWaker::new();
    let mut queue = PacketQueue::<1, 1>::new();
    let mut eth = device(&mut queue, &slot);
    let early = Task::new();
    let late = Task::new();
    let early_waker = Waker::from(early.clone());
    let late_waker = Waker::from(late.clone());

    assert!(eth.receive(&mut Context::from_waker(&early_waker)).is_none());
    assert!(eth.receive(&mut Context::from_waker(&late_waker)).is_none());
    assert_eq!((early.wakes(), late.wakes()), (0, 0));
    eth.on_interrupt();
    assert_eq!((early.wakes(), late.wakes()), (0, 1));
}

#[test]
fn transmit_registers_the_polling_task() {
    let slot = AtomicWaker::new();
    let mut queue = PacketQueue::<1, 1>::new();
    let mut eth = device(&mut queue, &slot);
    let task = Task::new();
    let waker = Waker::from(task.clone());
    eth.on_interrupt();
    assert_eq!(task.wakes(), 0);
    assert!(eth.transmit(&mut Context::from_waker(&waker)).is_some());
    assert_eq!(task.wakes(), 0);
    eth.on_interrupt();
    assert_eq!(task.wakes(), 1);
}

#[test]
fn link_state_follows_the_phy_and_wakes_the_task() {
    let slot = AtomicWaker::new();
    let mut queue = PacketQueue::<1, 1>::new();
    let mut eth = device(&mut queue, &slot);
    let task = Task::new();
    let waker = Waker::from(task.clone());
    let mut cx = Context::from_waker(&waker);

    assert!(eth.link_state(&mut cx) == LinkState::Down);
    assert_eq!(task.wakes(), 1);
    eth.smi_write(PHY_REG_BSR, 0x0024);
    eth.smi_write(PHY_REG_SSR, 0x1018);
    assert!(eth.link_state(&mut cx) == LinkState::Up);
    assert_eq!(task.wakes(), 2);
    eth.smi_write(PHY_REG_BSR, 0x0020);
    assert!(eth.link_state(&mut cx) == LinkState::Down);
    assert_eq!(task.wakes(), 3);
}

#[test]
fn new_resets_and_initialises_the_phy() {
    let slot = AtomicWaker::new();
    let mut queue = PacketQueue::<1, 1>::new();
    let mut eth = device(&mut queue, &slot);
    assert_eq!(eth.smi_read(0), 0x3200);
    assert_eq!(eth.smi_read(0x0D), 0x4003);
    assert!(!eth.phy_reset_done());
}

struct ClearsAtOnce {
    control: u16,
}

impl StationManagement for ClearsAtOnce {
    fn smi_read(&mut self, reg: u8) -> u16 {
        if reg == 0 {
            self.control & 0x7fff
        } else {
            0
        }
    }

    fn smi_write(&mut self, reg: u8, val: u16) {
        if reg == 0 {
            self.control = val;
        }
    }
}

#[test]
fn new_keeps_the_outcome_of_the_reset() {
    let slot = AtomicWaker::new();
    let mut queue = PacketQueue::<1, 1>::new();
    let mut eth = Ethernet::new(&mut queue, ClearsAtOnce { control: 0 }, GenericSMI, MAC, &slot);
    assert!(eth.phy_reset_done());
    assert_eq!(eth.smi_read(0), 0x3200);
}

#[test]
fn register_written_through_the_device_reads_back() {
    let slot = AtomicWaker::new();
    let mut queue = PacketQueue::<1, 1>::new();
    let mut eth = device(&mut queue, &slot);
    let task = Task::new();
    let waker = Waker::from(task.clone());
    let mut cx = Context::from_waker(&waker);
    eth.smi_write(4, 0x1801);
    eth.smi_write(5, 0xffff);
    assert!(eth.link_state(&mut cx) == LinkState::Down);
    eth.smi_write(3, 0x0001);
    assert_eq!(eth.smi_read(4), 0x1801);
}

#[test]
fn tokens_given_back_leave_the_rings_as_they_were() {
    let slot = AtomicWaker::new();
    let mut queue = PacketQueue::<1, 1>::new();
    let mut eth = device(&mut queue, &slot);
    let task = Task::new();
    let waker = Waker::from(task.clone());
    let mut cx = Context::from_waker(&waker);
    assert!(eth.rx_ring().deliver(&[7, 8]));
    let (rx, tx) = eth.receive(&mut cx).expect("both ready");
    tx.release();
    rx.release();
    assert_eq!(eth.tx_ring().pending(), None);
    let (rx, tx) = eth.receive(&mut cx).expect("still both ready");
    tx.release();
    assert_eq!(rx.consume(|f| f.to_vec()), vec![7, 8]);
    assert!(eth.receive(&mut cx).is_none());
    assert!(eth.transmit(&mut cx).is_some());
}

#[test]
fn capabilities_report_frame_size_and_ring_depth() {
    let slot = AtomicWaker::new();
    let mut queue = PacketQueue::<4, 2>::new();
    let eth = device(&mut queue, &slot);
    let caps = eth.capabilities();
    assert_eq!(caps.max_transmission_unit, 1514);
    assert_eq!(caps.max_burst_size, Some(4));
    let caps = capabilities_of(7);
    assert_eq!(caps.max_transmission_unit, 1514);
    assert_eq!(caps.max_burst_size, Some(7));
    assert!(matches!(caps.checksum.ipv4, Checksum::Both));
    assert!(matches!(caps.checksum.udp, Checksum::Both));
    assert!(matches!(caps.checksum.tcp, Checksum::Both));
    assert!(matches!(caps.checksum.icmpv4, Checksum::Both));
    assert!(matches!(caps.checksum.icmpv6, Checksum::Both));
}

#[test]
fn ethernet_address_is_the_one_given() {
    let slot = AtomicWaker::new();
    let mut queue = PacketQueue::<1, 1>::new();
    let eth = device(&mut queue, &slot);
    assert_eq!(eth.ethernet_address(), MAC);
}

#[test]
fn link_state_of_maps_both_outcomes() {
    assert!(link_state_of(true) == LinkState::Up);
    assert!(link_state_of(false) == LinkState::Down);
}

#[test]
fn default_capabilities_are_empty() {
    let caps = Capabilities::default();
    assert_eq!(caps.max_transmission_unit, 0);
    assert_eq!(caps.max_burst_size, None);
    assert!(matches!(caps.checksum.ipv4, Checksum::Both));
    assert!(matches!(caps.checksum.icmpv6, Checksum::Both));
}
