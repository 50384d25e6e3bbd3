[package]
name = "shelp"
version = "0.1.0"
edition = "2021"
publish = false

[dependencies]
crossterm = { version = "0.19", features = ["event-stream"] }
futures = "0.3"
