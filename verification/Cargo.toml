[package]
name = "zenoh_examples"
version = "0.1.0"
edition = "2021"
publish = false

[dependencies]
zenoh = { version = "1", default-features = false, features = ["transport_tcp", "transport_udp"] }
tokio = { version = "1", features = ["rt-multi-thread", "macros", "time"] }
log = "0.4"
embassy-sync = "*"
embassy-time = "*"
embassy-executor = "*"
static_cell = "*"
