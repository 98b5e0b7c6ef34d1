//! The Bluetooth radio of the system.

use super::error::Error;
use super::util::trim_nul;
use super::util::u16_slice_to_string;
use super::util::utf16_lossy;
use vstd::prelude::*;

verus! {

/// What the operating system tells of a Bluetooth radio that it has found.
#[derive(Debug, Clone, Copy)]
pub struct RawRadioInfo {
    /// The handle of the radio, which stays open until it is closed.
    pub handle: isize,
    /// The name in UTF-16, padded with NUL.
    pub name: [u16; 248],
}

/// A Bluetooth radio of the system. Whoever holds it closes its handle, once.
#[derive(Debug)]
pub struct Radio {
    pub name: String,
    pub handle: isize,
}

/// The first Bluetooth radio of the system, from what a search for it has
/// found: the radio with its handle and its name as text, or `NoRadiosFound`
/// where the search found none.
pub fn get_bluetooth_radio(found: Option<RawRadioInfo>) -> (result: Result<Radio, Error>)
    ensures
        match result {
            Ok(radio) => found matches Some(info) && radio.handle == info.handle && radio.name@
                == trim_nul(utf16_lossy(info.name@)),
            Err(error) => found is None && error == Error::NoRadiosFound,
        },
{
    match found {
        None => Err(Error::NoRadiosFound),
        Some(info) => Ok(
            Radio { handle: info.handle, name: u16_slice_to_string(info.name.as_slice()) },
        ),
    }
}

} // verus!
