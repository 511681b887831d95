[package]
name = "file_share"
version = "0.1.0"
edition = "2021"
publish = false

[dependencies]
libp2p = { version = "=0.53.2", features = ["async-std", "tcp", "dns", "noise", "yamux", "gossipsub", "identify", "mdns", "relay", "request-response", "macros", "ed25519"] }
async-std = { version = "=1.13.2", features = ["attributes"] }
async-trait = "=0.1.92"
futures = "=0.3.34"
futures-timer = "=3.0.4"
clap = { version = "=4.5.61", features = ["derive"] }
env_logger = "=0.10.2"
log = "=0.4.34"
