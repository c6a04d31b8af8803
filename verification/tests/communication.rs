use parrot_can::can_frame::{pack_word, unpack_payload, CANFrame};
use parrot_can::communication::{CommunicationComponent, SendError};
use parrot_can::parrot::ParrotState;

fn frame(id: u16, dlc: u8, low: u32, high: u32) -> CANFrame {
    CANFrame { id, rtr: false, dlc, data_low: low, data_high: high }
}

#[test]
fn new_keeps_ten_masked_ids() {
    let mine: Vec<u16> = (0..12).map(|i| 0x800 | i).collect();
    let comm = CommunicationComponent::new(&mine, &[0x123]);
    assert!(!comm.is_transmitting());
    // id 0x0 (0x800 masked) is one of the node's ids: a spoof triggers the defense
    let mut comm = comm;
    let mut p = ParrotState::new();
    assert!(comm.check_frame(frame(0x009, 8, 1, 0), &mut p));
    let mut p2 = ParrotState::new();
    assert!(!comm.check_frame(frame(0x00A, 8, 1, 0), &mut p2));
    assert!(!p2.suspect_found);
}

#[test]
fn send_packs_registers() {
    let mut comm = CommunicationComponent::new(&[0x100], &[]);
    let f = comm.send(0x123, 8, &[1, 2, 3, 4, 5, 6, 7, 8]).unwrap();
    assert_eq!(f.id, 0x123);
    assert!(!f.rtr);
    assert_eq!(f.dlc, 8);
    assert_eq!(f.data_low, 0x0403_0201);
    assert_eq!(f.data_high, 0x0807_0605);
    assert!(comm.is_transmitting());
}

#[test]
fn send_short_data_pads_with_zeros() {
    let mut comm = CommunicationComponent::new(&[], &[]);
    let f = comm.send(0x7FF, 3, &[0xAA, 0xBB, 0xCC]).unwrap();
    assert_eq!(f.data_low, 0x00CC_BBAA);
    assert_eq!(f.data_high, 0);
}

#[test]
fn send_rejects_invalid_parameters() {
    let mut comm = CommunicationComponent::new(&[], &[]);
    assert_eq!(comm.send(0x800, 8, &[0; 8]), Err(SendError::InvalidParameters));
    assert_eq!(comm.send(0x100, 9, &[0; 8]), Err(SendError::InvalidParameters));
    assert_eq!(comm.send(0x100, 8, &[0; 9]), Err(SendError::InvalidParameters));
    assert!(!comm.is_transmitting());
}

#[test]
fn pack_and_unpack_words() {
    assert_eq!(pack_word(&[1, 2, 3, 4, 5, 6, 7, 8], 4), 0x0807_0605);
    assert_eq!(pack_word(&[1, 2], 0), 0x0000_0201);
    let f = frame(1, 8, 0x0403_0201, 0x0807_0605);
    assert_eq!(unpack_payload(&f), vec![4, 3, 2, 1, 8, 7, 6, 5]);
}

#[test]
fn sent_data_comes_back_reversed_per_register() {
    let mut sender = CommunicationComponent::new(&[0x100], &[]);
    let f = sender.send(0x200, 8, &[1, 2, 3, 4, 5, 6, 7, 8]).unwrap();
    let mut receiver = CommunicationComponent::new(&[0x300], &[0x200]);
    let mut p = ParrotState::new();
    let out = receiver.receive(f, &mut p);
    assert!(!out.engage);
    assert_eq!(out.delivered, Some(vec![4, 3, 2, 1, 8, 7, 6, 5]));
}

#[test]
fn receive_delivers_watched_payload_truncated_to_dlc() {
    let mut comm = CommunicationComponent::new(&[0x100], &[0x200]);
    let mut p = ParrotState::new();
    let out = comm.receive(frame(0x200, 2, 0xAABB_CCDD, 0), &mut p);
    assert_eq!(out.delivered, Some(vec![0xAA, 0xBB]));
    assert!(comm.would_deliver(&frame(0x200, 2, 0xAABB_CCDD, 0)));
}

#[test]
fn receive_ignores_unwatched_and_zero_frames() {
    let mut comm = CommunicationComponent::new(&[0x100], &[0x200]);
    let mut p = ParrotState::new();
    assert_eq!(comm.receive(frame(0x201, 8, 1, 1), &mut p).delivered, None);
    assert_eq!(comm.receive(frame(0x200, 8, 0, 0), &mut p).delivered, None);
    assert!(!comm.would_deliver(&frame(0x200, 8, 0, 0)));
}

#[test]
fn receive_ends_transmission() {
    let mut comm = CommunicationComponent::new(&[0x100], &[]);
    comm.send(0x100, 1, &[1]).unwrap();
    assert!(comm.is_transmitting());
    let mut p = ParrotState::new();
    let out = comm.receive(frame(0x100, 1, 1, 0), &mut p);
    // the node's own frame while sending is no spoof
    assert!(!out.engage);
    assert!(!p.suspect_found);
    assert!(!comm.is_transmitting());
}

#[test]
fn spoofed_frame_starts_defense_once() {
    let mut comm = CommunicationComponent::new(&[0x100], &[]);
    let mut p = ParrotState::new();
    let spoof = frame(0x100, 8, 0xFFFF_FFFF, 0xFFFF_FFFF);
    let out = comm.receive(spoof, &mut p);
    assert!(out.engage);
    assert!(p.suspect_found);
    assert_eq!(p.collision_count, 0);
    assert_eq!(p.pending_engage_frame, Some(spoof));
    let again = comm.receive(spoof, &mut p);
    assert!(!again.engage);
}

#[test]
fn echo_of_d_message_clears_wait() {
    let mut comm = CommunicationComponent::new(&[0x100], &[]);
    let mut p = ParrotState::new();
    p.d_message = Some(frame(0x100, 8, 0, 0));
    p.tx_d_signal = true;
    comm.send(0x100, 8, &[0; 8]).unwrap();
    assert!(!comm.check_frame(frame(0x100, 8, 0, 0), &mut p));
    assert!(!p.tx_d_signal);
}

#[test]
fn tx_error_counts_only_in_defense_mode() {
    let mut comm = CommunicationComponent::new(&[0x100], &[]);
    let mut p = ParrotState::new();
    comm.tx_error_handler(&mut p);
    assert_eq!(p.collision_count, 0);
    p.suspect_found = true;
    comm.tx_error_handler(&mut p);
    assert_eq!(p.collision_count, 1);
}
