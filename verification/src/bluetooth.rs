//! The Bluetooth radio of the system and the devices known to it. One radio
//! per system is supported.

pub mod device;
pub mod error;
pub mod radio;
pub mod time;
pub mod util;

pub use time::Time;
