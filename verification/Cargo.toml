[package]
name = "benchmark"
version = "0.1.0"
edition = "2021"
publish = false

[dependencies]
bytes = "1"
clap = { version = "3", features = ["derive"] }
libc = "0.2"
rand = "0.8"
rdma-sys = "*"
serde = "1"
