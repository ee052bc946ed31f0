[package]
name = "hanode"
version = "0.1.0"
edition = "2021"
publish = false

[dependencies]
httparse = "=1.10.1"
libp2p = { version = "=0.56.0", default-features = false, features = ["secp256k1", "floodsub", "mdns", "ping", "tcp", "noise", "yamux", "tokio", "macros"] }
sled = "=0.34.7"
serde = { version = "=1.0.229", features = ["derive"] }
serde_json = "=1.0.154"
bytes = "=1.12.1"
log = "=0.4.34"
futures = "=0.3.34"
futures-util = "=0.3.34"
tokio = { version = "1", features = ["rt-multi-thread", "macros", "io-util", "io-std", "net", "sync"] }
actix-web = { version = "4", default-features = false, features = ["macros"] }
clap = { version = "4", default-features = false, features = ["std", "help", "usage"] }
daemonize = "*"
signal-hook = "*"
