[package]
name = "imcp"
version = "0.1.0"
edition = "2021"
publish = false

[dependencies]
heapless = "*"
hex = "*"
tokio = { version = "*", default-features = false, features = ["sync"] }
embassy-sync = "*"
embassy-futures = "*"
embassy-time = "*"
embedded-hal = "*"
embedded-io-async = "*"
clap = { version = "*", features = ["derive"] }
clap-num = "*"
log = "*"
env_logger = "*"
serialport = { version = "*", default-features = false }
