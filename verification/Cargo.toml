[package]
name = "audit_forwarder"
version = "0.1.0"
edition = "2021"
publish = false

[dependencies]
snailquote = "*"
tokio = { version = "*", features = ["net", "rt-multi-thread", "macros", "io-util", "time"] }
async-trait = "*"
reqwest = { version = "*", default-features = false }
rusqlite = { version = "*", features = ["bundled"] }
tokio-rusqlite = "*"
serde = { version = "*", features = ["derive"] }
serde_json = "*"
log = "*"
simple_logger = "*"
colored = "*"
