[package]
name = "flowtype"
version = "0.1.0"
edition = "2021"
publish = false

[dependencies]
ringbuf = "0.3"
rubato = "0.14"
crossbeam-channel = "0.5"
serde = { version = "1", features = ["derive"] }
serde_json = "1"
arboard = "3"
