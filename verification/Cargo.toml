[package]
name = "mndp_rs"
version = "0.1.0"
edition = "2021"
publish = false

[dependencies]
pnet = "0.35"
socket2 = "0.5"
tokio = { version = "1", features = ["sync", "rt"] }
