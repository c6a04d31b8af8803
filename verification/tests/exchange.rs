use parrot_can::can_frame::CANFrame;
use parrot_can::communication::{CommunicationComponent, FrameListener};
use parrot_can::device::{DeviceDriver, LocalDeviceManager};
use parrot_can::exchange::{AppListener, InterComponentExchangeManager};
use parrot_can::parrot::ParrotState;

#[derive(Default)]
struct Recorder {
    payloads: Vec<Vec<u8>>,
}

impl AppListener for Recorder {
    fn on_receive(&mut self, frame: &[u8]) {
        self.payloads.push(frame.to_vec());
    }
}

/// A listener that records into a recorder it borrows, so a test can look
/// at it afterwards.
struct Shared<'a>(&'a mut Recorder);

impl<'a> AppListener for Shared<'a> {
    fn on_receive(&mut self, frame: &[u8]) {
        self.0.on_receive(frame);
    }
}

#[derive(Default)]
struct Led {
    on: u32,
}

struct SharedLed<'a>(&'a mut Led);

impl<'a> DeviceDriver for SharedLed<'a> {
    fn turn_on(&mut self) {
        self.0.turn_on();
    }
}

impl DeviceDriver for Led {
    fn turn_on(&mut self) {
        self.on += 1;
    }
}

#[test]
fn payload_reaches_application() {
    let mut icem = InterComponentExchangeManager::new(Recorder::default());
    let mut comm = CommunicationComponent::new(&[0x100], &[0x200]);
    let mut p = ParrotState::new();
    let f = CANFrame { id: 0x200, rtr: false, dlc: 4, data_low: 0x0102_0304, data_high: 0 };
    let out = icem.receive(&mut comm, &mut p, f);
    assert_eq!(out.delivered, Some(vec![1, 2, 3, 4]));
    let zero = CANFrame { id: 0x200, rtr: false, dlc: 8, data_low: 0, data_high: 0 };
    assert_eq!(icem.receive(&mut comm, &mut p, zero).delivered, None);
    let mut recorder = Recorder::default();
    let mut icem = InterComponentExchangeManager::new(Shared(&mut recorder));
    let mut comm = CommunicationComponent::new(&[0x100], &[0x200]);
    icem.receive(&mut comm, &mut p, f);
    icem.receive(&mut comm, &mut p, zero);
    drop(icem);
    assert_eq!(recorder.payloads, vec![vec![1, 2, 3, 4]]);
}

#[test]
fn frame_listener_hands_payload_on() {
    let mut recorder = Recorder::default();
    let mut icem = InterComponentExchangeManager::new(Shared(&mut recorder));
    icem.on_interesting_frame(&[9, 8]);
    drop(icem);
    assert_eq!(recorder.payloads, vec![vec![9, 8]]);
}

#[test]
fn send_and_errors_go_through() {
    let icem = InterComponentExchangeManager::new(Recorder::default());
    let mut comm = CommunicationComponent::new(&[0x100], &[]);
    let f = icem.send(&mut comm, 0x100, 8, [0xFF; 8]).unwrap();
    assert_eq!(f.data_low, 0xFFFF_FFFF);
    assert!(comm.is_transmitting());
    let mut p = ParrotState::new();
    p.suspect_found = true;
    icem.tx_error_handler(&mut comm, &mut p);
    assert_eq!(p.collision_count, 1);
}

#[test]
fn led_is_switched_on() {
    let icem = InterComponentExchangeManager::new(Recorder::default());
    let mut led = Led::default();
    let mut ldm = LocalDeviceManager::new(SharedLed(&mut led));
    icem.turn_on_led(&mut ldm);
    icem.turn_on_led(&mut ldm);
    ldm.turn_on_light();
    drop(ldm);
    assert_eq!(led.on, 3);
}
