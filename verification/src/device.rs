//! Local devices of a node, such as its LED, behind the driver trait that
//! each device implements.

use vstd::prelude::*;

verus! {

/// A device that the node can switch on. A verified implementation
/// defines `times_on`, the times the device has been switched on, and
/// proves that `turn_on` adds one to it. An implementation written outside
/// Verus keeps the default `times_on`, which counts nothing; its `turn_on`
/// is believed, not proved, to switch the device on.
pub trait DeviceDriver {
    /// How many times the device has been switched on.
    open spec fn times_on(&self) -> nat {
        0
    }

    /// Switches the device on.
    fn turn_on(&mut self)
        ensures
            final(self).times_on() == old(self).times_on() + 1,
    ;
}

/// The manager of the node's local devices; it owns the LED's driver.
pub struct LocalDeviceManager<D: DeviceDriver> {
    led_driver: D,
}

impl<D: DeviceDriver> LocalDeviceManager<D> {
    /// A manager for the LED that `led_driver` drives.
    pub fn new(led_driver: D) -> (m: Self)
        ensures
            m.led() == led_driver,
    {
        LocalDeviceManager { led_driver }
    }

    /// The LED's driver.
    pub closed spec fn led(&self) -> D {
        self.led_driver
    }

    /// Switches the LED on through its driver, once.
    pub fn turn_on_light(&mut self)
        ensures
            final(self).led().times_on() == old(self).led().times_on() + 1,
    {
        self.led_driver.turn_on();
    }
}

} // verus!
