[package]
name = "curvine_rdma"
version = "0.1.0"
edition = "2021"
publish = false

[dependencies]
bytes = "1"
crossbeam = "0.8"
dashmap = "6"
parking_lot = "0.12"
libc = "0.2"
log = "0.4"
io-uring = "0.7"
tokio = { version = "1", features = ["rt"] }
serde = { version = "1", features = ["derive"] }

[dev-dependencies]
serde_json = "1"
