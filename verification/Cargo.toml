[package]
name = "flowly"
version = "0.1.0"
edition = "2021"
publish = false

[dependencies]
fastrand = "2"
futures = "0.3"
tokio = { version = "1", default-features = false, features = ["sync", "rt", "macros", "time"] }
tokio-stream = "0.1"
async-stream = "0.3"
log = "0.4"
