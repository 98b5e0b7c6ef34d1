//! Value objects for the Bluetooth radio and the Bluetooth devices that a
//! Windows host knows, and the rules that turn the records of the operating
//! system into them.

pub mod bluetooth;
