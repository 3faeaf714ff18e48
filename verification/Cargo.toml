[package]
name = "disco"
version = "0.1.0"
edition = "2021"
publish = false

[dependencies]
nanoid = "0.4"
anyhow = "1"
clap = { version = "3", features = ["derive"] }
tokio = { version = "1", features = ["full"] }
futures = "0.3"
serial = "0.4"
ringbuf = "0.2"
num = "0.4"
ndarray = "0.15"
