[package]
name = "audio_switcher"
version = "0.1.0"
edition = "2021"
publish = false

[dependencies]
chrono = { version = "0.4", default-features = false, features = ["std"] }
windows = { version = "0.48", features = ["Win32_Devices_Bluetooth", "Win32_Foundation"] }
