[package]
name = "stage_protocols"
version = "0.1.0"
edition = "2021"
publish = false

[dependencies]
socket2 = { version = "0.5", features = ["all"] }
thiserror = "1"
