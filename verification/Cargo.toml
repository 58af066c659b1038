[package]
name = "raw_proxy"
version = "0.1.0"
edition = "2021"
publish = false

[dependencies]
anyhow = "*"
clap = { version = "*", features = ["derive"] }
nfq = "*"
socket2 = { version = "*", features = ["all"] }
tun-tap = "*"
