[package]
name = "uhid-battery"
version = "0.2.0"
edition = "2021"
publish = false

[dependencies]
rustix = { version = "1", features = ["event", "fs"] }
