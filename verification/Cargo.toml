[package]
name = "rmom"
version = "0.1.0"
edition = "2021"
publish = false

[dependencies]
async-broadcast = "0.7"
futures = "0.3"
futures-lite = "2"
log = "0.4"
rand = "0.8"
rocket = { version = "0.5", features = ["json", "uuid"] }
tonic = "0.12"
uuid = { version = "1", features = ["v4"] }
