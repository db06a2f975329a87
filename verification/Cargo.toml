[package]
name = "rust_rdma"
version = "0.1.0"
edition = "2021"
publish = false

[dependencies]
ibverbs-sys = "*"
nix = { version = "0.29", features = ["net", "socket"] }
