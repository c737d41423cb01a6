[package]
name = "plasma"
version = "0.1.0"
edition = "2021"
publish = false

[dependencies]
p256 = { version = "=0.13.2", features = ["ecdh", "ecdsa"] }
rand = "=0.8.8"
hkdf = "=0.12.4"
sha2 = "=0.10.9"
sha3 = "=0.10.9"
chacha20poly1305 = "=0.10.1"
data-encoding = "2"
bson = "2"
chrono = "0.4"
clap = { version = "4", features = ["derive"] }
crossterm = "0.27"
dotenv = "0.15"
futures-util = "0.3"
home = "0.5"
jsonwebtoken = "8"
mongodb = "2"
ratatui = "0.23"
reqwest = { version = "0.11", default-features = false, features = ["json", "rustls-tls"] }
rpassword = "7"
serde = { version = "1", features = ["derive"] }
serde_json = "1"
tokio = { version = "1", features = ["macros", "rt-multi-thread", "sync", "time"] }
tokio-tungstenite = "0.20"
warp = "0.3"

[dev-dependencies]
bincode = "=1.3.3"
