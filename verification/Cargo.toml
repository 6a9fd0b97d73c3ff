[package]
name = "swarmbook"
version = "0.1.0"
edition = "2021"
publish = false

[dependencies]
anyhow = "*"
hex = "*"
libp2p = { version = "*", default-features = false, features = ["tokio", "tcp", "noise", "yamux", "ping", "identify", "macros", "ed25519"] }
libp2p-identity = { version = "*", features = ["ed25519", "secp256k1", "ecdsa", "rand", "peerid"] }
serde = { version = "*", features = ["derive"] }
serde_json = "*"
tokio = { version = "*", default-features = false, features = ["rt-multi-thread", "macros", "sync", "io-std", "io-util"] }
