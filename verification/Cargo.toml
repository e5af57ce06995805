[package]
name = "ilgda_ipc"
version = "0.1.0"
edition = "2021"
publish = false

[dependencies]
simdutf8 = "=0.1.5"
tokio = { version = "=1.54.1", features = ["io-util", "io-std", "process", "sync"] }
crossbeam = "=0.8.5"
ipc-channel = "=0.23.1"
serde = "=1.0.229"
heap-array = { version = "=0.1.9", features = ["serde"] }
