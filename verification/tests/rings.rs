use eth_mac::descriptor::{Descriptor, Owner};
use eth_mac::packet::{Packet, RX_BUFFER_SIZE, TX_BUFFER_SIZE};
use eth_mac::queue::PacketQueue;
use eth_mac::rx::{copy_into, RDesRing};
use eth_mac::tx::TDesRing;

fn submit(ring: &mut TDesRing<'_>, frame: &[u8]) -> bool {
    match ring.available() {
        Some(buffer) => buffer[..frame.len()].copy_from_slice(frame),
        None => return false,
    }
    ring.transmit(frame.len());
    true
}

fn fill_then_recover(n: usize) {
    let mut descriptors = vec![Descriptor::new(); n];
    let mut buffers = vec![Packet::<TX_BUFFER_SIZE>::new(); n];
    let mut ring = TDesRing::new(&mut descriptors, &mut buffers);
    assert_eq!(ring.len(), n);
    for i in 0..n {
        assert!(ring.ready());
        assert!(submit(&mut ring, &[i as u8]));
    }
    assert!(!ring.ready());
    assert!(ring.available().is_none());
    assert!(ring.complete());
    assert!(ring.available().is_some());
    assert!(submit(&mut ring, &[0xee]));
    assert!(ring.available().is_none());
    assert!(!submit(&mut ring, &[0xff]));
}

#[test]
fn descriptor_starts_zeroed_and_owned_by_software() {
    let d = Descriptor::new();
    assert!(d.available());
    assert_eq!(d.get_owner(), Owner::Software);
    assert_eq!(d.get_status(), 0);
    assert_eq!(d.get_buffer(), 0);
    assert_eq!(d.get_len(), 0);
}

#[test]
fn descriptor_owner_flips_and_nothing_else_moves() {
    let mut d = Descriptor::new();
    d.set_buffer(3);
    d.set_len(60);
    d.set_owner(Owner::Hardware);
    assert_eq!(d.get_owner(), Owner::Hardware);
    assert!(!d.available());
    assert_eq!(d.get_buffer(), 3);
    assert_eq!(d.get_len(), 60);
    assert_eq!(d.get_status(), 0);
    d.set_owner(Owner::Hardware);
    assert_eq!(d.get_owner(), Owner::Hardware);
    d.set_owner(Owner::Software);
    assert_eq!(d.get_owner(), Owner::Software);
    assert!(d.available());
    assert_eq!(d.get_buffer(), 3);
    assert_eq!(d.get_len(), 60);
}

#[test]
fn owner_other_is_the_other_party() {
    assert_eq!(Owner::Software.other(), Owner::Hardware);
    assert_eq!(Owner::Hardware.other(), Owner::Software);
}

#[test]
fn packet_is_zero_filled() {
    let p = Packet::<TX_BUFFER_SIZE>::new();
    assert_eq!(p.0.len(), 1514);
    assert!(p.0.iter().all(|b| *b == 0));
    let q = Packet::<RX_BUFFER_SIZE>::new();
    assert_eq!(q.0.len(), 1536);
}

#[test]
fn full_after_capacity_submissions_for_several_capacities() {
    for n in 1..=6 {
        fill_then_recover(n);
    }
}

#[test]
fn tx_buffer_is_whole_and_cursor_wraps() {
    let mut queue = PacketQueue::<3, 1>::new();
    let (mut tx, _rx) = queue.split();
    assert_eq!(tx.len(), 3);
    assert_eq!(tx.available().map(|b| b.len()), Some(1514));
    let mut seen = Vec::new();
    for round in 0..7u8 {
        seen.push(tx.index());
        assert!(submit(&mut tx, &[round]));
        assert_eq!(tx.pending(), Some(&[round][..]));
        assert!(tx.complete());
    }
    assert_eq!(seen, vec![0, 1, 2, 0, 1, 2, 0]);
}

#[test]
fn sent_bytes_are_exactly_the_bytes_submitted() {
    let mut queue = PacketQueue::<4, 1>::new();
    let (mut tx, _rx) = queue.split();
    let first: Vec<u8> = (0..200u16).map(|i| (i % 251) as u8).collect();
    let second = [0xaau8; 1514];
    let third: [u8; 0] = [];
    assert!(submit(&mut tx, &first));
    assert!(submit(&mut tx, &second));
    assert!(submit(&mut tx, &third));
    assert_eq!(tx.pending(), Some(&first[..]));
    assert!(tx.complete());
    assert_eq!(tx.pending().map(|f| f.len()), Some(1514));
    assert_eq!(tx.pending(), Some(&second[..]));
    assert!(tx.complete());
    assert_eq!(tx.pending(), Some(&third[..]));
    assert!(tx.complete());
    assert_eq!(tx.pending(), None);
    assert!(!tx.complete());
}

#[test]
fn stale_bytes_beyond_the_length_are_not_sent() {
    let mut queue = PacketQueue::<1, 1>::new();
    let (mut tx, _rx) = queue.split();
    assert!(submit(&mut tx, &[1, 2, 3, 4, 5, 6]));
    assert!(tx.complete());
    assert!(submit(&mut tx, &[9, 9]));
    assert_eq!(tx.pending(), Some(&[9u8, 9][..]));
}

#[test]
fn one_free_slot_serves_exactly_one_submission() {
    let mut queue = PacketQueue::<3, 1>::new();
    let (mut tx, _rx) = queue.split();
    assert!(submit(&mut tx, &[1]));
    assert!(submit(&mut tx, &[2]));
    let outcomes = [submit(&mut tx, &[3]), submit(&mut tx, &[4])];
    assert_eq!(outcomes, [true, false]);
}

#[test]
fn ownership_flag_flips_once_per_hand_off() {
    let mut queue = PacketQueue::<2, 2>::new();
    let (mut tx, mut rx) = queue.split();
    assert_eq!(tx.owner(0), Owner::Software);
    assert_eq!(tx.owner(1), Owner::Software);
    assert!(tx.available().is_some());
    assert_eq!(tx.owner(0), Owner::Software);
    tx.transmit(10);
    assert_eq!(tx.owner(0), Owner::Hardware);
    assert_eq!(tx.owner(1), Owner::Software);
    assert!(tx.complete());
    assert_eq!(tx.owner(0), Owner::Software);
    assert_eq!(tx.owner(1), Owner::Software);

    assert_eq!(rx.owner(0), Owner::Hardware);
    assert_eq!(rx.owner(1), Owner::Hardware);
    assert!(rx.deliver(&[1, 2, 3]));
    assert_eq!(rx.owner(0), Owner::Software);
    assert_eq!(rx.owner(1), Owner::Hardware);
    assert!(rx.available().is_some());
    assert_eq!(rx.owner(0), Owner::Software);
    rx.pop_packet();
    assert_eq!(rx.owner(0), Owner::Hardware);
    assert_eq!(rx.owner(1), Owner::Hardware);
}

#[test]
fn rx_frames_come_out_in_order_with_their_lengths() {
    let mut descriptors = [Descriptor::new(); 3];
    let mut buffers = [Packet::<RX_BUFFER_SIZE>::new(); 3];
    let mut rx = RDesRing::new(&mut descriptors, &mut buffers);
    assert_eq!(rx.len(), 3);
    assert!(!rx.ready());
    assert!(rx.available().is_none());
    assert!(rx.deliver(&[1, 2, 3]));
    assert!(rx.deliver(&[4]));
    assert!(rx.deliver(&[]));
    assert!(!rx.deliver(&[5, 6]));
    assert_eq!(rx.index(), 0);
    assert_eq!(rx.available().map(|f| f.to_vec()), Some(vec![1, 2, 3]));
    rx.pop_packet();
    assert_eq!(rx.index(), 1);
    assert_eq!(rx.available().map(|f| f.to_vec()), Some(vec![4]));
    rx.pop_packet();
    assert_eq!(rx.available().map(|f| f.to_vec()), Some(vec![]));
    rx.pop_packet();
    assert_eq!(rx.index(), 0);
    assert!(rx.available().is_none());
    assert!(rx.deliver(&[5, 6]));
    assert_eq!(rx.available().map(|f| f.to_vec()), Some(vec![5, 6]));
}

#[test]
fn rx_drops_a_frame_that_does_not_fit() {
    let mut queue = PacketQueue::<1, 2>::new();
    let (_tx, mut rx) = queue.split();
    let too_long = [7u8; 1537];
    assert!(!rx.deliver(&too_long));
    assert!(rx.available().is_none());
    let longest = [7u8; 1536];
    assert!(rx.deliver(&longest));
    assert_eq!(rx.available().map(|f| f.len()), Some(1536));
}

#[test]
fn rx_frame_can_be_written_over_in_place() {
    let mut queue = PacketQueue::<1, 1>::new();
    let (_tx, mut rx) = queue.split();
    assert!(rx.deliver(&[1, 2, 3]));
    if let Some(frame) = rx.available() {
        frame[1] = 0x55;
    }
    assert_eq!(rx.available().map(|f| f.to_vec()), Some(vec![1, 0x55, 3]));
}

#[test]
fn copy_into_overwrites_the_front_only() {
    let mut dst = [9u8; 5];
    copy_into(&mut dst, &[1, 2]);
    assert_eq!(dst, [1, 2, 9, 9, 9]);
    copy_into(&mut dst, &[]);
    assert_eq!(dst, [1, 2, 9, 9, 9]);
}
