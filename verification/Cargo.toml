[package]
name = "chat_application"
version = "0.1.0"
edition = "2021"
publish = false

[dependencies]
clap = { version = "=4.6.7", features = ["derive"] }
ctrlc = "=3.5.2"
libp2p = { version = "=0.57.0", features = ["ed25519", "floodsub", "macros", "mdns", "noise", "tcp", "tokio", "yamux"] }
once_cell = "=1.21.4"
tokio = { version = "=1.53.2", features = ["full"] }
