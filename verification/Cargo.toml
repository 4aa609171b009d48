[package]
name = "gitup"
version = "0.1.0"
edition = "2021"
publish = false

[dependencies]
sha3 = "0.10"
hkdf = "0.12"
chacha20poly1305 = "0.10"
hex = "0.4"
regex = "1"
cuid2 = "*"
flate2 = "1"
zip = { version = "2", default-features = false }
glob = "0.3"
serde = { version = "1", features = ["derive"] }
serde_json = "1"
clap = { version = "4", features = ["derive"] }
chrono = "0.4"
colored = "*"
tracing = "0.1"
tracing-subscriber = "0.3"
reqwest = { version = "0.12", default-features = false, features = ["json", "rustls-tls"] }
tokio = { version = "1", features = ["full"] }
futures = "0.3"
once_cell = "1"
async-trait = "0.1"
optional_struct = "*"
