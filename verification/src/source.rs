//! The two diagnostic reports that the device bridge is asked for.

use vstd::prelude::*;

verus! {

/// Name of the device service that reports the headset's battery.
pub const BATTERY_SERVICE: &'static str = "battery";

/// Name of the device service that reports the controllers.
pub const CONTROLLER_SERVICE: &'static str = "pxrcontrollerservice";

/// A subsystem of the device whose dump holds battery readings.
#[derive(Clone, Copy, Debug, PartialEq, Eq, Structural)]
pub enum Subsystem {
    Battery,
    ControllerService,
}

impl Subsystem {
    /// The service whose dump reports on this subsystem.
    pub open spec fn service(self) -> Seq<char> {
        match self {
            Subsystem::Battery => BATTERY_SERVICE@,
            Subsystem::ControllerService => CONTROLLER_SERVICE@,
        }
    }

    /// The service to name after `shell dumpsys` when asking the device
    /// bridge for this subsystem's dump.
    pub fn service_name(self) -> (name: &'static str)
        ensures
            name@ == self.service(),
    {
        match self {
            Subsystem::Battery => BATTERY_SERVICE,
            Subsystem::ControllerService => CONTROLLER_SERVICE,
        }
    }
}

} // verus!
