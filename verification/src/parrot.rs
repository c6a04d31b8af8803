//! The Parrot defense: once a node sees a frame that carries one of its own
//! identifiers without having sent it, it answers with defense ("D")
//! messages under the same identifier, all data bits dominant, so that the
//! two transmissions collide and the spoofing node's error counter climbs
//! until it leaves the bus.
//!
//! The state that the firmware shares between its interrupt handlers is the
//! `ParrotState` value here; the busy loop of an engagement is the state
//! machine `Engagement`, whose waiting for the bus is done by the caller.

use vstd::prelude::*;
use crate::can_frame::CANFrame;
use crate::communication::{CommunicationComponent, SendError, send_result};


verus! {

/// D messages sent in one round of an engagement, unless a detected
/// collision shortens it.
pub const ND: u8 = 100;

/// Transmission errors, counted from the start of defense mode, after which
/// the collision with the spoofing node counts as detected.
pub const COLLISION_THRESHOLD: u8 = 16;

/// Further D messages sent in a round once the collision is detected.
pub const ROUNDS_AFTER_DETECTION: u8 = 16;

/// The shared state of the defense.
#[derive(Clone, Copy, Debug)]
pub struct ParrotState {
    /// Defense mode: a spoofing node has been found and is being fought.
    pub suspect_found: bool,
    /// Transmission errors seen since defense mode was switched on.
    pub collision_count: u8,
    /// The error count has reached the threshold.
    pub collision_detected: bool,
    /// A D message is on its way and its echo has not come back yet.
    pub tx_d_signal: bool,
    /// The last D message sent, as its echo is expected back.
    pub d_message: Option<CANFrame>,
    /// The spoofed frame that an engagement is still to answer.
    pub pending_engage_frame: Option<CANFrame>,
}

impl ParrotState {
    /// The state after `activate_defense_mode`.
    pub open spec fn activated(self) -> ParrotState {
        ParrotState { suspect_found: true, collision_count: 0, ..self }
    }

    /// The state after one transmission error counted by `collision_detected`.
    pub open spec fn after_collision(self) -> ParrotState {
        ParrotState {
            collision_count: (self.collision_count + 1) as u8,
            collision_detected: self.collision_detected || self.collision_count + 1 == COLLISION_THRESHOLD,
            ..self
        }
    }

    /// Whether `f` is the echo of the last D message: same identifier,
    /// length and data.
    pub open spec fn matches_d_message(self, f: CANFrame) -> bool {
        match self.d_message {
            Some(d) => d.id == f.id && d.dlc == f.dlc && d.data_low == f.data_low && d.data_high
                == f.data_high,
            None => false,
        }
    }

    /// The D message that answers a spoofed frame: same identifier, remote
    /// flag and length, all data bits dominant.
    pub open spec fn d_message_for(attacker: CANFrame) -> CANFrame {
        CANFrame { id: attacker.id, rtr: attacker.rtr, dlc: attacker.dlc, data_low: 0, data_high: 0 }
    }

    /// The state after a D message answering `attacker` has been handed to the controller.
    pub open spec fn after_d_message(self, attacker: CANFrame) -> ParrotState {
        ParrotState {
            d_message: Some(ParrotState::d_message_for(attacker)),
            tx_d_signal: true,
            ..self
        }
    }

    /// The state of a node that has just started: defense off, nothing counted.
    pub fn new() -> (s: ParrotState)
        ensures
            !s.suspect_found,
            s.collision_count == 0,
            !s.collision_detected,
            !s.tx_d_signal,
            s.d_message is None,
            s.pending_engage_frame is None,
    {
        ParrotState {
            suspect_found: false,
            collision_count: 0,
            collision_detected: false,
            tx_d_signal: false,
            d_message: None,
            pending_engage_frame: None,
        }
    }
}

/// Whether defense mode is on.
pub fn defense_mode(state: &ParrotState) -> (on: bool)
    ensures
        on == state.suspect_found,
{
    state.suspect_found
}

/// Switches defense mode on and restarts the count of transmission errors.
pub fn activate_defense_mode(state: &mut ParrotState)
    ensures
        *final(state) == old(state).activated(),
{
    state.suspect_found = true;
    state.collision_count = 0;
}

/// Records the spoofed frame that the next engagement answers.
pub fn set_attacker_frame(state: &mut ParrotState, frame: CANFrame)
    ensures
        *final(state) == (ParrotState { pending_engage_frame: Some(frame), ..*old(state) }),
{
    state.pending_engage_frame = Some(frame);
}

/// Counts one transmission error; the collision counts as detected when
/// the count reaches the threshold.
pub fn collision_detected(state: &mut ParrotState)
    requires
        old(state).collision_count < 255,
    ensures
        *final(state) == old(state).after_collision(),
{
    let count = state.collision_count + 1;
    state.collision_count = count;
    if count == COLLISION_THRESHOLD {
        state.collision_detected = true;
    }
}

/// Whether a received frame is the echo of the last D message.
pub fn is_d_message(state: &ParrotState, received_frame: CANFrame) -> (b: bool)
    ensures
        b == state.matches_d_message(received_frame),
{
    match state.d_message {
        Some(d) => d.id == received_frame.id && d.dlc == received_frame.dlc && d.data_low
            == received_frame.data_low && d.data_high == received_frame.data_high,
        None => false,
    }
}

/// Records that the echo of the last D message has come back.
pub fn notify_d_message_received(state: &mut ParrotState)
    ensures
        *final(state) == (ParrotState { tx_d_signal: false, ..*old(state) }),
{
    state.tx_d_signal = false;
}

/// `n` zero bytes.
pub open spec fn zeros(n: nat) -> Seq<u8> {
    Seq::new(n, |k: int| 0u8)
}

/// Sends one D message answering `attacker_frame`: the same identifier and
/// length, all data bytes zero, handed to the communication component; then
/// remembers it as the echo to wait for. The result is what the component's
/// `send` returned, the frame to write into the controller.
pub fn transmit_d_message(
    state: &mut ParrotState,
    comm: &mut CommunicationComponent,
    attacker_frame: CANFrame,
) -> (tx: Result<CANFrame, SendError>)
    requires
        attacker_frame.dlc <= 64,
    ensures
        tx == send_result(attacker_frame.id, attacker_frame.dlc, zeros(attacker_frame.dlc as nat)),
        tx is Ok ==> final(comm)@ == (crate::communication::CommView { tx_flag: true, ..old(comm)@ }),
        tx is Err ==> final(comm)@ == old(comm)@,
        *final(state) == old(state).after_d_message(attacker_frame),
{
    let mut data: Vec<u8> = Vec::new();
    let n = attacker_frame.dlc as usize;
    let mut i: usize = 0;
    while i < n
        invariant
            n == attacker_frame.dlc,
            0 <= i <= n,
            data@ =~= zeros(i as nat),
        decreases n - i,
    {
        data.push(0u8);
        i += 1;
    }
    let tx = comm.send(attacker_frame.id, attacker_frame.dlc, data.as_slice());
    state.d_message = Some(
        CANFrame {
            id: attacker_frame.id,
            rtr: attacker_frame.rtr,
            dlc: attacker_frame.dlc,
            data_low: 0,
            data_high: 0,
        },
    );
    state.tx_d_signal = true;
    tx
}

/// Position in a round of D messages: the next message's index and the
/// index at which the round ends.
#[derive(Clone, Copy, Debug, PartialEq, Eq, Structural)]
pub struct NdRound {
    pub i: u8,
    pub bound: u8,
}

/// An engagement against one spoofing frame. Rounds of D messages follow
/// one another while defense mode is on and no collision has been detected.
/// For each D message the caller writes the frame that `next_transmission`
/// returns into the controller, waits until the echo has come back
/// (`tx_d_signal` is false), and calls `after_transmission`.
#[derive(Clone, Copy, Debug)]
pub struct Engagement {
    pub attacker: CANFrame,
    pub round: Option<NdRound>,
}

impl Engagement {
    /// A round is under way at a valid position.
    pub open spec fn wf(self) -> bool {
        self.round matches Some(r) ==> r.i <= r.bound
    }

    /// The current round still has D messages to send.
    pub open spec fn round_live(self) -> bool {
        self.round matches Some(r) && r.i < r.bound
    }

    /// Whether the engagement sends another D message from `state`.
    pub open spec fn continues(self, state: ParrotState) -> bool {
        self.round_live() || (state.suspect_found && !state.collision_detected)
    }

    /// The round in which the next D message goes out.
    pub open spec fn next_round(self) -> NdRound {
        if self.round_live() {
            self.round.unwrap()
        } else {
            NdRound { i: 0, bound: ND }
        }
    }

    /// Starts the engagement that a spoofed frame asked for, taking that
    /// frame from the state.
    pub fn take_pending(state: &mut ParrotState) -> (eng: Option<Engagement>)
        ensures
            *final(state) == (ParrotState { pending_engage_frame: None, ..*old(state) }),
            eng == (match old(state).pending_engage_frame {
                Some(f) => Some(Engagement { attacker: f, round: None }),
                None => None,
            }),
    {
        let pending = state.pending_engage_frame;
        state.pending_engage_frame = None;
        match pending {
            Some(f) => Some(Engagement { attacker: f, round: None }),
            None => None,
        }
    }

    /// The next D message of the engagement, or `None` when it is over: the
    /// current round has ended and defense mode is off or the collision has
    /// been detected. A new round starts at index 0 and ends at `ND`.
    pub fn next_transmission(
        &mut self,
        state: &mut ParrotState,
        comm: &mut CommunicationComponent,
    ) -> (tx: Option<Result<CANFrame, SendError>>)
        requires
            old(self).wf(),
            old(self).attacker.dlc <= 64,
        ensures
            final(self).wf(),
            final(self).attacker == old(self).attacker,
            tx is None <==> !old(self).continues(*old(state)),
            tx is None ==> {
                &&& final(self).round is None
                &&& *final(state) == *old(state)
                &&& final(comm)@ == old(comm)@
            },
            tx matches Some(t) ==> {
                &&& final(self).round == Some(old(self).next_round())
                &&& t == send_result(
                    old(self).attacker.id,
                    old(self).attacker.dlc,
                    zeros(old(self).attacker.dlc as nat),
                )
                &&& *final(state) == old(state).after_d_message(old(self).attacker)
                &&& t is Ok ==> final(comm)@ == (crate::communication::CommView {
                    tx_flag: true,
                    ..old(comm)@
                })
                &&& t is Err ==> final(comm)@ == old(comm)@
            },
    {
        let live = match self.round {
            Some(r) => r.i < r.bound,
            None => false,
        };
        if !live {
            if state.suspect_found && !state.collision_detected {
                self.round = Some(NdRound { i: 0, bound: ND });
            } else {
                self.round = None;
                return None;
            }
        }
        let tx = transmit_d_message(state, comm, self.attacker);
        Some(tx)
    }

    /// Ends one D message's turn, once its echo has come back: a detected
    /// collision switches defense mode off and lets the round run for
    /// `ROUNDS_AFTER_DETECTION` more messages from this one.
    pub fn after_transmission(&mut self, state: &mut ParrotState)
        requires
            old(self).round_live(),
            old(state).collision_detected ==> old(self).round.unwrap().i < 240,
        ensures
            final(self).wf(),
            final(self).attacker == old(self).attacker,
            final(self).round == Some(
                NdRound {
                    i: (old(self).round.unwrap().i + 1) as u8,
                    bound: if old(state).collision_detected {
                        (old(self).round.unwrap().i + ROUNDS_AFTER_DETECTION) as u8
                    } else {
                        old(self).round.unwrap().bound
                    },
                },
            ),
            *final(state) == if old(state).collision_detected {
                ParrotState { collision_detected: false, suspect_found: false, ..*old(state) }
            } else {
                *old(state)
            },
    {
        let r = self.round.unwrap();
        let mut bound = r.bound;
        if state.collision_detected {
            state.collision_detected = false;
            state.suspect_found = false;
            bound = r.i + ROUNDS_AFTER_DETECTION;
        }
        self.round = Some(NdRound { i: r.i + 1, bound });
    }
}

/// The state after `n` transmission errors counted by `collision_detected`.
pub open spec fn after_collisions(p: ParrotState, n: nat) -> ParrotState
    decreases n,
{
    if n == 0 {
        p
    } else {
        after_collisions(p, (n - 1) as nat).after_collision()
    }
}

/// Once defense mode is switched on, with no collision pending, the
/// collision counts as detected exactly from the `COLLISION_THRESHOLD`-th
/// transmission error on, and the count is the number of errors.
pub proof fn lemma_collision_detected_at_threshold(p: ParrotState, n: nat)
    requires
        !p.collision_detected,
        n <= 255,
    ensures
        after_collisions(p.activated(), n).collision_count == n,
        after_collisions(p.activated(), n).collision_detected <==> n >= COLLISION_THRESHOLD,
        after_collisions(p.activated(), n).suspect_found,
    decreases n,
{
    if n > 0 {
        lemma_collision_detected_at_threshold(p, (n - 1) as nat);
    }
}

/// The echo of a D message as it was sent is recognized as that D message.
pub proof fn lemma_d_message_echo_recognized(p: ParrotState, attacker: CANFrame)
    requires
        send_result(attacker.id, attacker.dlc, zeros(attacker.dlc as nat)) is Ok,
    ensures
        p.after_d_message(attacker).matches_d_message(
            send_result(attacker.id, attacker.dlc, zeros(attacker.dlc as nat))->Ok_0,
        ),
{
    let z = zeros(attacker.dlc as nat);
    assert(crate::can_frame::spec_data_low(z) == 0);
    assert(crate::can_frame::spec_data_high(z) == 0);
}

/// An engagement whose round is over sends nothing more once defense mode
/// is off, as it is after a detected collision.
pub proof fn lemma_engagement_ends_when_defense_off(e: Engagement, s: ParrotState)
    requires
        !e.round_live(),
        !s.suspect_found,
    ensures
        !e.continues(s),
{
}
/// Rounds follow one another for as long as defense mode is on and no
/// collision has been detected: once a round is over, whatever its index and
/// end, the engagement sends another D message, opening a fresh round that
/// starts at index 0 and ends at `ND`.
pub proof fn lemma_rounds_repeat_while_defense_on(e: Engagement, s: ParrotState)
    requires
        !e.round_live(),
        s.suspect_found,
        !s.collision_detected,
    ensures
        e.continues(s),
        e.next_round() == (NdRound { i: 0, bound: ND }),
{
}

/// A round under way always goes on with its next message, at the same
/// position, whatever the defense state.
pub proof fn lemma_live_round_goes_on(e: Engagement, s: ParrotState)
    requires
        e.round_live(),
    ensures
        e.continues(s),
        e.next_round() == e.round.unwrap(),
{
}
} // verus!
