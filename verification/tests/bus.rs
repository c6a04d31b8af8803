use parrot_can::bus::{is_bus_bit, BusRound, ByteOutcome, DOMINANT, RECESSIVE};

#[test]
fn idle_round_is_recessive() {
    let mut r = BusRound::new();
    assert_eq!(r.close_round(), RECESSIVE);
}

#[test]
fn one_dominant_bit_wins() {
    let mut r = BusRound::new();
    assert_eq!(r.on_byte(0, 1, 3), ByteOutcome::Recorded { round_complete: false });
    assert_eq!(r.on_byte(1, 0, 3), ByteOutcome::Recorded { round_complete: false });
    assert_eq!(r.on_byte(2, 1, 3), ByteOutcome::Recorded { round_complete: true });
    assert_eq!(r.close_round(), DOMINANT);
    assert_eq!(r.received(), 0);
}

#[test]
fn all_recessive_is_recessive() {
    let mut r = BusRound::new();
    r.on_byte(4, 1, 2);
    r.on_byte(9, 1, 2);
    assert_eq!(r.close_round(), RECESSIVE);
}

#[test]
fn a_node_resending_replaces_its_bit() {
    let mut r = BusRound::new();
    r.on_byte(4, 0, 2);
    assert_eq!(r.on_byte(4, 1, 2), ByteOutcome::Recorded { round_complete: false });
    assert_eq!(r.received(), 1);
    assert_eq!(r.close_round(), RECESSIVE);
}

#[test]
fn invalid_byte_disconnects_and_drops_bit() {
    let mut r = BusRound::new();
    r.on_byte(1, 0, 2);
    assert_eq!(r.on_byte(1, 7, 2), ByteOutcome::Disconnect);
    assert_eq!(r.received(), 0);
    assert_eq!(r.close_round(), RECESSIVE);
    assert!(is_bus_bit(0) && is_bus_bit(1) && !is_bus_bit(2));
}

#[test]
fn forget_drops_a_bit() {
    let mut r = BusRound::new();
    r.on_byte(1, 0, 2);
    r.on_byte(2, 1, 2);
    r.forget(1);
    assert_eq!(r.received(), 1);
    assert_eq!(r.close_round(), RECESSIVE);
}
