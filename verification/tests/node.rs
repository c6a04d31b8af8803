use parrot_can::node::{
    attack_payload, attacker_should_send, classify_interrupt, is_attacker_role, CanEvent,
};

#[test]
fn interrupt_lines() {
    assert_eq!(classify_interrupt(40), Some(CanEvent::FrameReceived));
    assert_eq!(classify_interrupt(41), Some(CanEvent::TxError));
    assert_eq!(classify_interrupt(39), None);
    assert_eq!(classify_interrupt(-1), None);
}

#[test]
fn roles() {
    assert!(is_attacker_role("attacker"));
    assert!(!is_attacker_role("victim"));
    assert!(!is_attacker_role("attackers"));
    assert!(!is_attacker_role("Attacker"));
}

#[test]
fn attacker_sends_twice() {
    assert!(attacker_should_send(true, 0));
    assert!(attacker_should_send(true, 1));
    assert!(!attacker_should_send(true, 2));
    assert!(!attacker_should_send(false, 0));
    assert_eq!(attack_payload(), [0xFF; 8]);
}
