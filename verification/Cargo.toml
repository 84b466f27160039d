[package]
name = "flipper_rpc"
version = "0.1.0"
edition = "2021"
publish = false

[dependencies]
tokio = { version = "*", features = ["rt-multi-thread", "io-util", "macros", "sync"] }
tokio-serial = "*"
btleplug = "*"
futures = "*"
