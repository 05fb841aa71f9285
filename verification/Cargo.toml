[package]
name = "worker_pool"
version = "0.1.0"
edition = "2021"
publish = false

[dependencies]
flume = { version = "=0.12.0", default-features = false }
log = "=0.4.35"
lsm-tree = { version = "=3.1.10", default-features = false }
