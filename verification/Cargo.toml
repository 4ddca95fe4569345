[package]
name = "frnsc_liveregistry_rs"
version = "0.1.0"
edition = "2021"
publish = false

[dependencies]
forensic-rs = "*"
windows = { version = "0.48", features = ["Win32_Foundation", "Win32_System_Registry"] }
