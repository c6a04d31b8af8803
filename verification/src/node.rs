//! Decisions of the node's firmware outside the communication stack: which
//! interrupt means what, and when an attacking node sends its frames.

use vstd::prelude::*;
use vstd::string::StringSliceAdditionalSpecFns;

verus! {

/// Interrupt line of the controller's "frame received" interrupt.
pub const CAN_RX_IRQ: i16 = 40;

/// Interrupt line of the controller's "transmission error" interrupt.
pub const CAN_TX_ERROR_IRQ: i16 = 41;

/// Frames that an attacking node sends under its identifier.
pub const ATTACK_FRAMES: u32 = 2;

/// Length of an attacking node's frames.
pub const ATTACK_DLC: u8 = 8;

/// What an interrupt of the CAN controller reports.
#[derive(Clone, Copy, Debug, PartialEq, Eq, Structural)]
pub enum CanEvent {
    FrameReceived,
    TxError,
}

/// The event that interrupt line `irqn` reports; other lines report none.
pub fn classify_interrupt(irqn: i16) -> (ev: Option<CanEvent>)
    ensures
        ev == (if irqn == CAN_RX_IRQ {
            Some(CanEvent::FrameReceived)
        } else if irqn == CAN_TX_ERROR_IRQ {
            Some(CanEvent::TxError)
        } else {
            None
        }),
{
    if irqn == CAN_RX_IRQ {
        Some(CanEvent::FrameReceived)
    } else if irqn == CAN_TX_ERROR_IRQ {
        Some(CanEvent::TxError)
    } else {
        None
    }
}

/// The bytes of the role name `attacker`.
pub open spec fn attacker_role_bytes() -> Seq<u8> {
    seq![97u8, 116u8, 116u8, 97u8, 99u8, 107u8, 101u8, 114u8]
}

/// Whether the configured role is `attacker`.
pub fn is_attacker_role(role: &str) -> (b: bool)
    ensures
        b == (role.spec_bytes() == attacker_role_bytes()),
{
    let bytes = role.as_bytes();
    let expected: [u8; 8] = [97u8, 116u8, 116u8, 97u8, 99u8, 107u8, 101u8, 114u8];
    assert(expected@ =~= attacker_role_bytes());
    if bytes.len() != 8 {
        return false;
    }
    let mut i: usize = 0;
    while i < 8
        invariant
            bytes@ == role.spec_bytes(),
            bytes@.len() == 8,
            expected@ == attacker_role_bytes(),
            0 <= i <= 8,
            forall|k: int| 0 <= k < i ==> bytes@[k] == expected@[k],
        decreases 8 - i,
    {
        if bytes[i] != expected[i] {
            return false;
        }
        i += 1;
    }
    assert(bytes@ =~= attacker_role_bytes());
    true
}

/// Whether the node's main loop sends an attack frame now: only an
/// attacking node, and only its first `ATTACK_FRAMES` times.
pub fn attacker_should_send(is_attacker: bool, tx_count: u32) -> (b: bool)
    ensures
        b == (is_attacker && tx_count < ATTACK_FRAMES),
{
    is_attacker && tx_count < ATTACK_FRAMES
}

/// The data of an attack frame: all bits recessive.
pub fn attack_payload() -> (data: [u8; 8])
    ensures
        forall|k: int| 0 <= k < 8 ==> data[k] == 0xFF,
{
    [0xFFu8; 8]
}

} // verus!
