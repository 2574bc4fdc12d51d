[package]
name = "tx_pigeon"
version = "0.1.0"
edition = "2021"
publish = false

[dependencies]
bitcoin = "=0.32.102"
chrono = { version = "=0.4.45", default-features = false, features = ["clock"] }
data-encoding = "=2.11.1"
hex = "=0.4.3"
rand = "=0.9.5"
sha3 = "=0.10.9"
anyhow = "1"
clap = { version = "4", features = ["derive"] }
futures = "0.3"
libp2p = { version = "=0.55.0", default-features = false, features = ["gossipsub", "macros", "mdns", "noise", "tcp", "tls", "tokio", "yamux"] }
reqwest = { version = "0.12", default-features = false, features = ["json", "socks", "rustls-tls"] }
serde = { version = "1", features = ["derive"] }
tokio = { version = "1", features = ["io-util", "macros", "net", "rt-multi-thread", "signal", "sync", "time"] }
tracing = "0.1"
tracing-subscriber = { version = "0.3", default-features = false, features = ["fmt"] }
tui = { version = "0.19", default-features = false }
