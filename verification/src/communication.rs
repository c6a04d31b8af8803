//! The communication component of a node: its own and its watched CAN
//! identifiers, the preparation of frames to send, and the handling of each
//! received frame, which feeds the Parrot defense and hands interesting
//! payloads on.
//!
//! The controller's registers are read and written by the caller: `send`
//! returns the frame to write into them, and `receive` takes the frame read
//! out of them.

use vstd::prelude::*;
use crate::can_frame::{
    CANFrame, CAN_ID_MASK, MAX_DLC, spec_data_low, spec_data_high, frame_payload, pack_word,
    unpack_payload,
};
use crate::parrot::{
    ParrotState, defense_mode, activate_defense_mode, set_attacker_frame, collision_detected,
    is_d_message, notify_d_message_received,
};

verus! {

/// Receives the payloads of interesting frames.
pub trait FrameListener {
    fn on_interesting_frame(&mut self, frame: &[u8]);
}

/// Most identifiers of each kind that a node keeps.
pub const MAX_NODE_IDS: usize = 10;

/// Why a frame was not handed to the controller.
#[derive(Clone, Copy, Debug, PartialEq, Eq, Structural)]
pub enum SendError {
    /// The identifier has more than 11 bits, or the length or the data more than 8 bytes.
    InvalidParameters,
}

/// What a node does about one received frame.
#[derive(Debug)]
pub struct ReceiveOutcome {
    /// The frame spoofed one of the node's identifiers: an engagement is to be started.
    pub engage: bool,
    /// The payload to hand to the frame listener, if any.
    pub delivered: Option<Vec<u8>>,
}

/// The abstract state of a communication component.
#[verifier::ext_equal]
pub struct CommView {
    pub my_ids: Seq<u16>,
    pub interested_ids: Seq<u16>,
    pub tx_flag: bool,
}

impl CommView {
    /// At most `MAX_NODE_IDS` identifiers of each kind, all of 11 bits.
    pub open spec fn wf(self) -> bool {
        &&& self.my_ids.len() <= MAX_NODE_IDS
        &&& self.interested_ids.len() <= MAX_NODE_IDS
        &&& forall|k: int| 0 <= k < self.my_ids.len() ==> #[trigger] self.my_ids[k] <= CAN_ID_MASK
        &&& forall|k: int|
            0 <= k < self.interested_ids.len() ==> #[trigger] self.interested_ids[k] <= CAN_ID_MASK
    }

    /// The frame carries one of the node's own identifiers.
    pub open spec fn is_mine(self, f: CANFrame) -> bool {
        self.my_ids.contains(f.id)
    }

    /// The frame carries a watched identifier.
    pub open spec fn is_interesting(self, f: CANFrame) -> bool {
        self.interested_ids.contains(f.id)
    }

    /// The frame spoofs the node: one of its identifiers, while it is not
    /// sending and defense mode is off.
    pub open spec fn triggers_defense(self, p: ParrotState, f: CANFrame) -> bool {
        self.is_mine(f) && !self.tx_flag && !p.suspect_found
    }

    /// The defense state after the node has checked a received frame.
    pub open spec fn parrot_after_check(self, p: ParrotState, f: CANFrame) -> ParrotState {
        if self.triggers_defense(p, f) {
            ParrotState { pending_engage_frame: Some(f), ..p.activated() }
        } else if self.is_mine(f) && self.tx_flag && p.matches_d_message(f) {
            ParrotState { tx_d_signal: false, ..p }
        } else {
            p
        }
    }

    /// Whether a received frame's payload goes to the listener: a watched
    /// identifier and not all data bytes zero (a D message carries zeros).
    pub open spec fn delivers(self, f: CANFrame) -> bool {
        self.is_interesting(f) && carries_data(f)
    }
}

/// Some data byte of the frame is not zero.
pub open spec fn carries_data(f: CANFrame) -> bool {
    exists|k: int| 0 <= k < 8 && #[trigger] frame_payload(f)[k] != 0
}

/// The first `MAX_NODE_IDS` identifiers, each kept to its 11 low bits.
pub open spec fn masked_prefix(ids: Seq<u16>) -> Seq<u16> {
    let n = if ids.len() <= MAX_NODE_IDS { ids.len() } else { MAX_NODE_IDS as nat };
    Seq::new(n, |k: int| (ids[k] % 2048) as u16)
}

/// What `send` returns for the given parameters.
pub open spec fn send_result(id: u16, dlc: u8, data: Seq<u8>) -> Result<CANFrame, SendError> {
    if id > CAN_ID_MASK || dlc > MAX_DLC || data.len() > 8 {
        Err(SendError::InvalidParameters)
    } else {
        Ok(
            CANFrame {
                id,
                rtr: false,
                dlc,
                data_low: spec_data_low(data),
                data_high: spec_data_high(data),
            },
        )
    }
}

/// A node's communication component.
pub struct CommunicationComponent {
    my_ids: Vec<u16>,
    interested_ids: Vec<u16>,
    tx_flag: bool,
}

impl View for CommunicationComponent {
    type V = CommView;

    closed spec fn view(&self) -> CommView {
        CommView {
            my_ids: self.my_ids@,
            interested_ids: self.interested_ids@,
            tx_flag: self.tx_flag,
        }
    }
}

proof fn lemma_mask(id: u16)
    by (bit_vector)
    ensures
        id & 0x7FFu16 == id % 2048,
        id % 2048 <= 0x7FF,
{
}

fn masked_ids(ids: &[u16]) -> (out: Vec<u16>)
    ensures
        out@ == masked_prefix(ids@),
{
    let mut out: Vec<u16> = Vec::new();
    let mut i: usize = 0;
    while i < ids.len() && i < MAX_NODE_IDS
        invariant
            0 <= i <= ids.len(),
            i <= MAX_NODE_IDS,
            out@.len() == i,
            forall|k: int| 0 <= k < i ==> out@[k] == (ids@[k] % 2048) as u16,
        decreases ids.len() - i,
    {
        proof {
            lemma_mask(ids@[i as int]);
        }
        out.push(ids[i] & CAN_ID_MASK);
        i += 1;
    }
    assert(out@ =~= masked_prefix(ids@));
    out
}

fn contains_id(ids: &Vec<u16>, id: u16) -> (b: bool)
    ensures
        b == ids@.contains(id),
{
    let mut i: usize = 0;
    while i < ids.len()
        invariant
            0 <= i <= ids.len(),
            forall|k: int| 0 <= k < i ==> ids@[k] != id,
        decreases ids.len() - i,
    {
        if ids[i] == id {
            return true;
        }
        i += 1;
    }
    false
}

fn any_nonzero(payload: &Vec<u8>) -> (b: bool)
    ensures
        b == exists|k: int| 0 <= k < payload@.len() && #[trigger] payload@[k] != 0,
{
    let mut i: usize = 0;
    while i < payload.len()
        invariant
            0 <= i <= payload.len(),
            forall|k: int| 0 <= k < i ==> payload@[k] == 0,
        decreases payload.len() - i,
    {
        if payload[i] != 0 {
            return true;
        }
        i += 1;
    }
    false
}

impl CommunicationComponent {
    /// A component that owns the first `MAX_NODE_IDS` of `my_ids` and
    /// watches the first `MAX_NODE_IDS` of `interested_ids`, each kept to
    /// its 11 low bits, and is not sending.
    pub fn new(my_ids: &[u16], interested_ids: &[u16]) -> (comm: Self)
        ensures
            comm@ == (CommView {
                my_ids: masked_prefix(my_ids@),
                interested_ids: masked_prefix(interested_ids@),
                tx_flag: false,
            }),
            comm@.wf(),
    {
        CommunicationComponent {
            my_ids: masked_ids(my_ids),
            interested_ids: masked_ids(interested_ids),
            tx_flag: false,
        }
    }

    /// Prepares a data frame for the controller: the identifier, the length
    /// and the payload packed into the two data registers, bytes 0 to 3 into
    /// the low one and 4 to 7 into the high one, each first byte least
    /// significant, missing bytes zero. On success the node counts as sending.
    pub fn send(&mut self, id: u16, dlc: u8, data: &[u8]) -> (res: Result<CANFrame, SendError>)
        ensures
            res == send_result(id, dlc, data@),
            res is Ok ==> final(self)@ == (CommView { tx_flag: true, ..old(self)@ }),
            res is Err ==> final(self)@ == old(self)@,
    {
        if id > CAN_ID_MASK || dlc > MAX_DLC || data.len() > 8 {
            return Err(SendError::InvalidParameters);
        }
        let data_low = pack_word(data, 0);
        let data_high = pack_word(data, 4);
        self.tx_flag = true;
        Ok(CANFrame { id, rtr: false, dlc, data_low, data_high })
    }

    /// Handles one received frame: runs the defense check, reads out the
    /// payload of a watched frame that carries data, and ends the node's
    /// own transmission.
    pub fn receive(&mut self, frame: CANFrame, parrot: &mut ParrotState) -> (out: ReceiveOutcome)
        requires
            old(self)@.wf(),
            old(self)@.delivers(frame) ==> frame.dlc <= MAX_DLC,
        ensures
            out.engage == old(self)@.triggers_defense(*old(parrot), frame),
            *final(parrot) == old(self)@.parrot_after_check(*old(parrot), frame),
            out.delivered is Some <==> old(self)@.delivers(frame),
            out.delivered matches Some(p) ==> p@ == frame_payload(frame).take(frame.dlc as int),
            final(self)@ == (CommView { tx_flag: false, ..old(self)@ }),
    {
        let engage = self.check_frame(frame, parrot);
        let mut delivered: Option<Vec<u8>> = None;
        if contains_id(&self.interested_ids, frame.id) {
            let payload = unpack_payload(&frame);
            if any_nonzero(&payload) {
                let mut out: Vec<u8> = Vec::new();
                let n = frame.dlc as usize;
                let mut i: usize = 0;
                while i < n
                    invariant
                        n == frame.dlc,
                        n <= 8,
                        payload@.len() == 8,
                        0 <= i <= n,
                        out@ =~= payload@.take(i as int),
                    decreases n - i,
                {
                    out.push(payload[i]);
                    i += 1;
                }
                delivered = Some(out);
            }
        }
        self.tx_flag = false;
        ReceiveOutcome { engage, delivered }
    }

    /// Whether the node is sending: a frame was handed to the controller
    /// since the last frame was received.
    pub fn is_transmitting(&self) -> (b: bool)
        ensures
            b == self@.tx_flag,
    {
        self.tx_flag
    }

    /// Whether `receive` hands the payload of `frame` to the listener: a
    /// watched identifier and some data byte not zero.
    pub fn would_deliver(&self, frame: &CANFrame) -> (b: bool)
        ensures
            b == self@.delivers(*frame),
    {
        contains_id(&self.interested_ids, frame.id) && any_nonzero(&unpack_payload(frame))
    }

    /// The Parrot check on a received frame. A frame with one of the node's
    /// identifiers that the node did not send, while defense mode is off,
    /// switches defense mode on, is kept as the frame to answer, and asks
    /// for an engagement (the result). The echo of the node's own D message
    /// clears the wait for it. Anything else changes nothing.
    pub fn check_frame(&mut self, frame: CANFrame, parrot: &mut ParrotState) -> (engage: bool)
        ensures
            engage == old(self)@.triggers_defense(*old(parrot), frame),
            *final(parrot) == old(self)@.parrot_after_check(*old(parrot), frame),
            final(self)@ == old(self)@,
    {
        if contains_id(&self.my_ids, frame.id) {
            if !self.tx_flag && !defense_mode(parrot) {
                activate_defense_mode(parrot);
                set_attacker_frame(parrot, frame);
                return true;
            }
            if self.tx_flag && is_d_message(parrot, frame) {
                notify_d_message_received(parrot);
            }
        }
        false
    }

    /// Handles a transmission error: in defense mode it counts toward the
    /// detection of the collision.
    pub fn tx_error_handler(&mut self, parrot: &mut ParrotState)
        requires
            old(parrot).suspect_found ==> old(parrot).collision_count < 255,
        ensures
            *final(parrot) == if old(parrot).suspect_found {
                old(parrot).after_collision()
            } else {
                *old(parrot)
            },
            final(self)@ == old(self)@,
    {
        if defense_mode(parrot) {
            collision_detected(parrot);
        }
    }
}

/// A frame with zero data, such as a D message or its echo, is never
/// handed to the listener.
pub proof fn lemma_d_message_never_delivered(c: CommView, f: CANFrame)
    requires
        f.data_low == 0,
        f.data_high == 0,
    ensures
        !c.delivers(f),
{
    crate::can_frame::lemma_zero_registers_zero_payload(f);
}

/// While defense mode is on, no spoofed frame starts another engagement:
/// after a frame has switched it on, no frame triggers the defense again.
pub proof fn lemma_single_engagement(c: CommView, p: ParrotState, f: CANFrame, g: CANFrame)
    requires
        c.triggers_defense(p, f),
    ensures
        c.parrot_after_check(p, f).suspect_found,
        !c.triggers_defense(c.parrot_after_check(p, f), g),
{
}

/// A frame that the node receives while it is sending never switches the
/// defense on, whatever its identifier.
pub proof fn lemma_own_transmission_never_triggers(c: CommView, p: ParrotState, f: CANFrame)
    requires
        c.tx_flag,
    ensures
        !c.triggers_defense(p, f),
{
}
/// A received frame that does not start the defense never switches
/// defense mode, the error count, the detection flag, the last D message or
/// the frame to answer; at most it ends the wait for the echo. The echo of
/// the node's own D message, received while it is sending, ends that wait.
pub proof fn lemma_non_trigger_keeps_defense(c: CommView, p: ParrotState, f: CANFrame)
    requires
        !c.triggers_defense(p, f),
    ensures
        c.parrot_after_check(p, f).suspect_found == p.suspect_found,
        c.parrot_after_check(p, f).collision_count == p.collision_count,
        c.parrot_after_check(p, f).collision_detected == p.collision_detected,
        c.parrot_after_check(p, f).d_message == p.d_message,
        c.parrot_after_check(p, f).pending_engage_frame == p.pending_engage_frame,
        c.parrot_after_check(p, f).tx_d_signal ==> p.tx_d_signal,
        c.is_mine(f) && c.tx_flag && p.matches_d_message(f) ==> !c.parrot_after_check(p, f).tx_d_signal,
{
}

proof fn lemma_word_zero(w: u32)
    by (bit_vector)
    ensures
        (w % 256u32 == 0 && (w / 256u32) % 256u32 == 0 && (w / 65536u32) % 256u32 == 0 && (w
            / 16777216u32) % 256u32 == 0) <==> w == 0,
{
}

/// A frame carries data exactly when one of its two data registers is not zero.
pub proof fn lemma_carries_data_iff_registers(f: CANFrame)
    ensures
        carries_data(f) <==> (f.data_low != 0 || f.data_high != 0),
{
    lemma_word_zero(f.data_low);
    lemma_word_zero(f.data_high);
    let pl = frame_payload(f);
    if f.data_low != 0 || f.data_high != 0 {
        if pl[0] == 0 && pl[1] == 0 && pl[2] == 0 && pl[3] == 0 && pl[4] == 0 && pl[5] == 0
            && pl[6] == 0 && pl[7] == 0 {
            assert(false);
        }
        if pl[0] != 0 { assert(carries_data(f)); }
        if pl[1] != 0 { assert(carries_data(f)); }
        if pl[2] != 0 { assert(carries_data(f)); }
        if pl[3] != 0 { assert(carries_data(f)); }
        if pl[4] != 0 { assert(carries_data(f)); }
        if pl[5] != 0 { assert(carries_data(f)); }
        if pl[6] != 0 { assert(carries_data(f)); }
        if pl[7] != 0 { assert(carries_data(f)); }
    }
}

/// A watched frame is handed to the listener exactly when one of its data
/// registers is not zero; any other frame never is.
pub proof fn lemma_delivery_by_registers(c: CommView, f: CANFrame)
    ensures
        c.delivers(f) <==> (c.interested_ids.contains(f.id) && (f.data_low != 0 || f.data_high != 0)),
{
    lemma_carries_data_iff_registers(f);
}

/// `send` refuses a frame exactly when its identifier has more than 11 bits,
/// its length is above 8 or its data is longer than 8 bytes, whatever the
/// length says of the data; an accepted frame keeps the identifier and the
/// length and is a data frame.
pub proof fn lemma_send_accepts_exactly_valid(id: u16, dlc: u8, data: Seq<u8>)
    ensures
        (send_result(id, dlc, data) is Ok) <==> (id <= 0x7FF && dlc <= 8 && data.len() <= 8),
        send_result(id, dlc, data) matches Ok(f) ==> f.id == id && f.dlc == dlc && !f.rtr,
{
}

/// The payload of an accepted frame of 8 bytes, as a receiving node reads
/// it: the bytes of each data register in reverse order.
pub proof fn lemma_sent_payload_bytes(id: u16, dlc: u8, data: Seq<u8>)
    requires
        id <= 0x7FF,
        dlc <= 8,
        data.len() == 8,
    ensures
        frame_payload(send_result(id, dlc, data)->Ok_0) == seq![
            data[3], data[2], data[1], data[0], data[7], data[6], data[5], data[4],
        ],
{
    let f = send_result(id, dlc, data)->Ok_0;
    crate::can_frame::lemma_payload_of_packed_data(f, data);
    let expect = seq![data[3], data[2], data[1], data[0], data[7], data[6], data[5], data[4]];
    assert forall|k: int| 0 <= k < 8 implies frame_payload(f)[k] == expect[k] by {
        assert(frame_payload(f)[k] == crate::can_frame::byte_or_zero(data, 4 * (k / 4) + 3 - k % 4));
    }
    assert(frame_payload(f) =~= expect);
}

proof fn lemma_mask_bits(id: u16)
    by (bit_vector)
    ensures
        (id % 2048) as u16 == id & 0x7FFu16,
        id <= 0x7FF ==> id & 0x7FFu16 == id,
        id & 0x7FFu16 <= 0x7FF,
{
}

/// The identifiers a node keeps are the first ten given, each cut to its
/// low 11 bits: a standard identifier is kept as it is.
pub proof fn lemma_masked_prefix_keeps_standard_ids(ids: Seq<u16>)
    ensures
        masked_prefix(ids).len() == if ids.len() <= 10 { ids.len() } else { 10 },
        forall|k: int|
            0 <= k < masked_prefix(ids).len() ==> #[trigger] masked_prefix(ids)[k] == ids[k] & 0x7FFu16,
        forall|k: int|
            0 <= k < masked_prefix(ids).len() && ids[k] <= 0x7FF ==> #[trigger] masked_prefix(ids)[k]
                == ids[k],
{
    assert forall|k: int| 0 <= k < masked_prefix(ids).len() implies #[trigger] masked_prefix(ids)[k]
        == ids[k] & 0x7FFu16 && (ids[k] <= 0x7FF ==> masked_prefix(ids)[k] == ids[k]) by {
        lemma_mask_bits(ids[k]);
    }
}
} // verus!
