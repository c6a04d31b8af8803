//! The inter-component exchange manager: the node's application layer sends
//! through it, and it hands the payloads of interesting frames on to the
//! application's listener.

use vstd::prelude::*;
use crate::can_frame::{CANFrame, frame_payload};
use crate::communication::{
    CommunicationComponent, CommView, FrameListener, ReceiveOutcome, SendError, send_result,
};
use crate::device::{DeviceDriver, LocalDeviceManager};
use crate::parrot::ParrotState;

verus! {

/// Receives, on the application's side, the payloads of interesting frames.
/// A verified implementation defines `received`, the payloads it was
/// handed, and proves that `on_receive` appends the new one. An
/// implementation written outside Verus keeps the default `received`, which
/// records nothing; its `on_receive` is believed, not proved, to take the
/// payload.
pub trait AppListener {
    /// The payloads handed to the listener so far, in order.
    open spec fn received(&self) -> Seq<Seq<u8>> {
        Seq::empty()
    }

    /// Takes one payload.
    fn on_receive(&mut self, frame: &[u8])
        ensures
            final(self).received() == old(self).received().push(frame@),
    ;
}

/// Connects the application to the communication component and the local
/// devices.
pub struct InterComponentExchangeManager<L: AppListener> {
    app_listener: L,
}

impl<L: AppListener> InterComponentExchangeManager<L> {
    /// A manager that hands payloads to `app_listener`.
    pub fn new(app_listener: L) -> (m: Self)
        ensures
            m.listener() == app_listener,
    {
        InterComponentExchangeManager { app_listener }
    }

    /// The application's listener.
    pub closed spec fn listener(&self) -> L {
        self.app_listener
    }

    /// Sends a data frame of the application through the communication
    /// component: what it returns is the component's `send` result.
    pub fn send(&self, comm: &mut CommunicationComponent, id: u16, dlc: u8, data: [u8; 8]) -> (res:
        Result<CANFrame, SendError>)
        ensures
            res == send_result(id, dlc, data@),
            res is Ok ==> final(comm)@ == (CommView { tx_flag: true, ..old(comm)@ }),
            res is Err ==> final(comm)@ == old(comm)@,
    {
        comm.send(id, dlc, data.as_slice())
    }

    /// Lets the communication component handle a received frame, and hands
    /// the payload it delivers to the application's listener.
    pub fn receive(
        &mut self,
        comm: &mut CommunicationComponent,
        parrot: &mut ParrotState,
        frame: CANFrame,
    ) -> (out: ReceiveOutcome)
        requires
            old(comm)@.wf(),
            old(comm)@.delivers(frame) ==> frame.dlc <= 8,
        ensures
            out.engage == old(comm)@.triggers_defense(*old(parrot), frame),
            *final(parrot) == old(comm)@.parrot_after_check(*old(parrot), frame),
            out.delivered is Some <==> old(comm)@.delivers(frame),
            out.delivered matches Some(p) ==> p@ == frame_payload(frame).take(frame.dlc as int),
            final(comm)@ == (CommView { tx_flag: false, ..old(comm)@ }),
            final(self).listener().received() == match out.delivered {
                Some(p) => old(self).listener().received().push(p@),
                None => old(self).listener().received(),
            },
    {
        let out = comm.receive(frame, parrot);
        match &out.delivered {
            Some(p) => self.on_interesting_frame(p.as_slice()),
            None => {},
        }
        out
    }

    /// Lets the communication component handle a transmission error.
    pub fn tx_error_handler(&self, comm: &mut CommunicationComponent, parrot: &mut ParrotState)
        requires
            old(parrot).suspect_found ==> old(parrot).collision_count < 255,
        ensures
            *final(parrot) == if old(parrot).suspect_found {
                old(parrot).after_collision()
            } else {
                *old(parrot)
            },
            final(comm)@ == old(comm)@,
    {
        comm.tx_error_handler(parrot);
    }

    /// Switches the node's LED on.
    pub fn turn_on_led<D: DeviceDriver>(&self, local_device_manager: &mut LocalDeviceManager<D>)
        ensures
            final(local_device_manager).led().times_on() == old(local_device_manager).led().times_on()
                + 1,
    {
        local_device_manager.turn_on_light();
    }
}

impl<L: AppListener> FrameListener for InterComponentExchangeManager<L> {
    /// Hands the payload to the application's listener.
    fn on_interesting_frame(&mut self, payload: &[u8])
        ensures
            final(self).listener().received() == old(self).listener().received().push(payload@),
    {
        self.app_listener.on_receive(payload);
    }
}

} // verus!
