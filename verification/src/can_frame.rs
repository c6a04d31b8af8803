//! CAN frames as the controller's registers hold them, and the packing of
//! payload bytes into the two 32-bit data registers.

use vstd::prelude::*;

verus! {

/// Mask of the 11 bits of a standard CAN identifier.
pub const CAN_ID_MASK: u16 = 0x7FF;

/// Largest number of payload bytes of a classic CAN frame.
pub const MAX_DLC: u8 = 8;

/// A CAN frame in the layout of the controller's registers.
#[derive(Clone, Copy, Debug, PartialEq, Eq, Structural)]
pub struct CANFrame {
    pub id: u16,
    pub rtr: bool,
    pub dlc: u8,
    pub data_low: u32,
    pub data_high: u32,
}

/// Byte `k` of `data`, or 0 past its end.
pub open spec fn byte_or_zero(data: Seq<u8>, k: int) -> u8 {
    if 0 <= k < data.len() {
        data[k]
    } else {
        0
    }
}

/// The word whose least significant byte is `b0` and most significant `b3`.
pub open spec fn word_of(b0: u8, b1: u8, b2: u8, b3: u8) -> u32 {
    (b0 + 256 * b1 + 65536 * b2 + 16777216 * b3) as u32
}

/// The low data register for a payload: bytes 0 to 3, byte 0 least significant.
pub open spec fn spec_data_low(data: Seq<u8>) -> u32 {
    word_of(byte_or_zero(data, 0), byte_or_zero(data, 1), byte_or_zero(data, 2), byte_or_zero(data, 3))
}

/// The high data register for a payload: bytes 4 to 7, byte 4 least significant.
pub open spec fn spec_data_high(data: Seq<u8>) -> u32 {
    word_of(byte_or_zero(data, 4), byte_or_zero(data, 5), byte_or_zero(data, 6), byte_or_zero(data, 7))
}

/// Byte `k` of a word, counted from the least significant one.
pub open spec fn word_byte(w: u32, k: int) -> u8 {
    ((w as int / pow256(k)) % 256) as u8
}

/// 256 to the power `k`, for the byte positions of a word.
pub open spec fn pow256(k: int) -> int {
    if k <= 0 {
        1
    } else if k == 1 {
        256
    } else if k == 2 {
        65536
    } else {
        16777216
    }
}

/// The eight payload bytes that a received frame carries, as the node reads
/// them: each register from its most significant byte down, low register first.
pub open spec fn frame_payload(f: CANFrame) -> Seq<u8> {
    seq![
        word_byte(f.data_low, 3), word_byte(f.data_low, 2), word_byte(f.data_low, 1), word_byte(f.data_low, 0),
        word_byte(f.data_high, 3), word_byte(f.data_high, 2), word_byte(f.data_high, 1), word_byte(f.data_high, 0),
    ]
}

proof fn lemma_pack_word(b0: u8, b1: u8, b2: u8, b3: u8)
    by (bit_vector)
    ensures
        ((b3 as u32) << 24u32) | ((b2 as u32) << 16u32) | ((b1 as u32) << 8u32) | (b0 as u32)
            == b0 + 256 * b1 + 65536 * b2 + 16777216 * b3,
{
}

fn get_or_zero(data: &[u8], k: usize) -> (b: u8)
    ensures
        b == byte_or_zero(data@, k as int),
{
    if k < data.len() {
        data[k]
    } else {
        0
    }
}

/// Packs payload bytes `base..base + 4` into one data register, the first of
/// them least significant; bytes past the end of `data` count as 0.
pub fn pack_word(data: &[u8], base: usize) -> (w: u32)
    requires
        base <= usize::MAX - 3,
    ensures
        w == word_of(
            byte_or_zero(data@, base as int),
            byte_or_zero(data@, base + 1),
            byte_or_zero(data@, base + 2),
            byte_or_zero(data@, base + 3),
        ),
{
    let b0 = get_or_zero(data, base);
    let b1 = get_or_zero(data, base + 1);
    let b2 = get_or_zero(data, base + 2);
    let b3 = get_or_zero(data, base + 3);
    proof {
        lemma_pack_word(b0, b1, b2, b3);
    }
    ((b3 as u32) << 24u32) | ((b2 as u32) << 16u32) | ((b1 as u32) << 8u32) | (b0 as u32)
}

proof fn lemma_shift_bytes(w: u32)
    by (bit_vector)
    ensures
        ((w >> 24u32) as u8) as int == (w / 16777216u32) % 256u32,
        ((w >> 16u32) as u8) as int == (w / 65536u32) % 256u32,
        ((w >> 8u32) as u8) as int == (w / 256u32) % 256u32,
        (w as u8) as int == w % 256u32,
{
}

/// The payload bytes of a received frame, as the node reads them out of the
/// two data registers.
pub fn unpack_payload(frame: &CANFrame) -> (payload: Vec<u8>)
    ensures
        payload@ == frame_payload(*frame),
{
    let lo = frame.data_low;
    let hi = frame.data_high;
    proof {
        lemma_shift_bytes(lo);
        lemma_shift_bytes(hi);
    }
    let payload = vec![
        (lo >> 24u32) as u8, (lo >> 16u32) as u8, (lo >> 8u32) as u8, lo as u8,
        (hi >> 24u32) as u8, (hi >> 16u32) as u8, (hi >> 8u32) as u8, hi as u8,
    ];
    assert(payload@ =~= frame_payload(*frame));
    payload
}

proof fn lemma_word_bytes(b0: u8, b1: u8, b2: u8, b3: u8)
    ensures
        word_byte(word_of(b0, b1, b2, b3), 0) == b0,
        word_byte(word_of(b0, b1, b2, b3), 1) == b1,
        word_byte(word_of(b0, b1, b2, b3), 2) == b2,
        word_byte(word_of(b0, b1, b2, b3), 3) == b3,
{
    let w: int = b0 + 256 * b1 + 65536 * b2 + 16777216 * b3;
    assert(0 <= w < 0x1_0000_0000) by (nonlinear_arith)
        requires
            w == b0 + 256 * b1 + 65536 * b2 + 16777216 * b3,
            0 <= b0 < 256,
            0 <= b1 < 256,
            0 <= b2 < 256,
            0 <= b3 < 256,
    ;
    assert(w % 256 == b0 && (w / 256) % 256 == b1 && (w / 65536) % 256 == b2 && (w / 16777216) % 256
        == b3) by (nonlinear_arith)
        requires
            w == b0 + 256 * b1 + 65536 * b2 + 16777216 * b3,
            0 <= b0 < 256,
            0 <= b1 < 256,
            0 <= b2 < 256,
            0 <= b3 < 256,
    ;
}

/// What a node reads out of a frame that `data` was packed into: within
/// each data register the bytes come out in reverse order, so payload byte
/// `k` is data byte `4 * (k / 4) + 3 - k % 4` (missing bytes zero).
pub proof fn lemma_payload_of_packed_data(f: CANFrame, data: Seq<u8>)
    requires
        f.data_low == spec_data_low(data),
        f.data_high == spec_data_high(data),
    ensures
        forall|k: int|
            0 <= k < 8 ==> #[trigger] frame_payload(f)[k] == byte_or_zero(data, 4 * (k / 4) + 3 - k % 4),
{
    lemma_word_bytes(byte_or_zero(data, 0), byte_or_zero(data, 1), byte_or_zero(data, 2), byte_or_zero(data, 3));
    lemma_word_bytes(byte_or_zero(data, 4), byte_or_zero(data, 5), byte_or_zero(data, 6), byte_or_zero(data, 7));
}

/// A frame whose data registers are both zero carries only zero bytes.
pub proof fn lemma_zero_registers_zero_payload(f: CANFrame)
    requires
        f.data_low == 0,
        f.data_high == 0,
    ensures
        forall|k: int| 0 <= k < 8 ==> #[trigger] frame_payload(f)[k] == 0,
{
}
} // verus!
