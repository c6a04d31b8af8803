use parrot_can::can_frame::CANFrame;
use parrot_can::communication::{CommunicationComponent, SendError};
use parrot_can::parrot::{
    activate_defense_mode, collision_detected, defense_mode, is_d_message,
    notify_d_message_received, set_attacker_frame, transmit_d_message, Engagement, NdRound,
    ParrotState, ND,
};

fn frame(id: u16, dlc: u8, low: u32, high: u32) -> CANFrame {
    CANFrame { id, rtr: false, dlc, data_low: low, data_high: high }
}

#[test]
fn new_state_is_idle() {
    let p = ParrotState::new();
    assert!(!defense_mode(&p));
    assert!(!p.collision_detected);
    assert!(!p.tx_d_signal);
    assert_eq!(p.d_message, None);
    assert_eq!(p.pending_engage_frame, None);
}

#[test]
fn activation_resets_count() {
    let mut p = ParrotState::new();
    p.collision_count = 7;
    activate_defense_mode(&mut p);
    assert!(defense_mode(&p));
    assert_eq!(p.collision_count, 0);
}

#[test]
fn sixteen_collisions_are_detected() {
    let mut p = ParrotState::new();
    activate_defense_mode(&mut p);
    for n in 1..=20u8 {
        collision_detected(&mut p);
        assert_eq!(p.collision_count, n);
        assert_eq!(p.collision_detected, n >= 16);
    }
}

#[test]
fn d_message_recognition() {
    let mut p = ParrotState::new();
    assert!(!is_d_message(&p, frame(1, 8, 0, 0)));
    p.d_message = Some(CANFrame { id: 1, rtr: true, dlc: 8, data_low: 0, data_high: 0 });
    assert!(is_d_message(&p, frame(1, 8, 0, 0)));
    assert!(!is_d_message(&p, frame(1, 7, 0, 0)));
    assert!(!is_d_message(&p, frame(2, 8, 0, 0)));
    assert!(!is_d_message(&p, frame(1, 8, 1, 0)));
    p.tx_d_signal = true;
    notify_d_message_received(&mut p);
    assert!(!p.tx_d_signal);
}

#[test]
fn transmit_d_message_sends_zeros() {
    let mut p = ParrotState::new();
    let mut comm = CommunicationComponent::new(&[0x100], &[]);
    let attacker = frame(0x100, 8, 0xFFFF_FFFF, 0xFFFF_FFFF);
    let tx = transmit_d_message(&mut p, &mut comm, attacker).unwrap();
    assert_eq!(tx, frame(0x100, 8, 0, 0));
    assert!(p.tx_d_signal);
    assert_eq!(p.d_message, Some(frame(0x100, 8, 0, 0)));
    assert!(comm.is_transmitting());
    // the echo of what was sent is recognized
    assert!(is_d_message(&p, tx));
}

#[test]
fn transmit_d_message_with_long_dlc_fails_but_waits() {
    let mut p = ParrotState::new();
    let mut comm = CommunicationComponent::new(&[0x100], &[]);
    let attacker = frame(0x100, 12, 0, 0);
    assert_eq!(transmit_d_message(&mut p, &mut comm, attacker), Err(SendError::InvalidParameters));
    assert!(p.tx_d_signal);
    assert!(!comm.is_transmitting());
}

#[test]
fn engagement_runs_rounds_until_detection() {
    let mut p = ParrotState::new();
    let mut comm = CommunicationComponent::new(&[0x100], &[]);
    let attacker = frame(0x100, 8, 0xFFFF_FFFF, 0xFFFF_FFFF);
    activate_defense_mode(&mut p);
    set_attacker_frame(&mut p, attacker);
    let mut eng = Engagement::take_pending(&mut p).unwrap();
    assert_eq!(p.pending_engage_frame, None);
    assert!(Engagement::take_pending(&mut p).is_none());
    let mut sent = 0u32;
    loop {
        match eng.next_transmission(&mut p, &mut comm) {
            None => break,
            Some(tx) => {
                assert_eq!(tx.unwrap(), frame(0x100, 8, 0, 0));
                sent += 1;
                // the echo comes back; the attacker's frames collide from the 5th message on
                p.tx_d_signal = false;
                if sent >= 5 && p.suspect_found {
                    collision_detected(&mut p);
                }
                eng.after_transmission(&mut p);
            }
        }
    }
    // detection at the 20th message (index 19): the round then ends before index 35
    assert_eq!(sent, 35);
    assert!(!p.suspect_found);
    assert!(!p.collision_detected);
    assert_eq!(eng.round, None);
}

#[test]
fn engagement_starts_new_round_while_defense_on() {
    let mut p = ParrotState::new();
    let mut comm = CommunicationComponent::new(&[0x100], &[]);
    activate_defense_mode(&mut p);
    let mut eng = Engagement { attacker: frame(0x100, 1, 0, 0), round: Some(NdRound { i: 3, bound: 3 }) };
    assert!(eng.next_transmission(&mut p, &mut comm).is_some());
    assert_eq!(eng.round, Some(NdRound { i: 0, bound: ND }));
}

#[test]
fn engagement_without_defense_sends_nothing() {
    let mut p = ParrotState::new();
    let mut comm = CommunicationComponent::new(&[0x100], &[]);
    let mut eng = Engagement { attacker: frame(0x100, 1, 0, 0), round: None };
    assert!(eng.next_transmission(&mut p, &mut comm).is_none());
    assert!(!comm.is_transmitting());
}

#[test]
fn detection_shortens_round() {
    let mut p = ParrotState::new();
    p.suspect_found = true;
    p.collision_detected = true;
    let mut eng = Engagement { attacker: frame(0x100, 1, 0, 0), round: Some(NdRound { i: 40, bound: 100 }) };
    eng.after_transmission(&mut p);
    assert_eq!(eng.round, Some(NdRound { i: 41, bound: 56 }));
    assert!(!p.suspect_found);
    assert!(!p.collision_detected);
}
