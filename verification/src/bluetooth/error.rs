//! The errors of the Bluetooth module.

use vstd::prelude::*;

verus! {

/// What can go wrong while the radio or the devices are looked up.
#[derive(Debug, Clone, Copy, PartialEq, Eq, Structural)]
pub enum Error {
    /// No Bluetooth device is known to the system.
    NoDevicesFound,
    /// No Bluetooth radio is available to the system.
    NoRadiosFound,
}

} // verus!
