[package]
name = "tunnelbridge"
version = "0.2.2"
edition = "2021"
publish = false

[dependencies]
argon2 = "0.5"
base64 = "0.22"
blake3 = "1"
chrono = "0.4"
dashmap = "6"
hex = "0.4"
http = "1"
ipnet = { version = "2", features = ["serde"] }
rand = "0.9"
rcgen = "0.14"
rustls-pemfile = "2"
serde_json = "1"
sha2 = "0.10"
url = "2"
uuid = { version = "1", features = ["v4", "serde"] }

axum = { version = "0.8", features = ["ws"] }
futures-util = "0.3"
hyper = { version = "1", features = ["client", "http1"] }
hyper-util = { version = "0.1", features = ["tokio"] }
kcp-tokio = "*"
keyring = { version = "3", default-features = false, features = ["apple-native"] }
quinn = "0.11"
reqwest = { version = "0.12", default-features = false, features = ["json", "rustls-tls"] }
rustls = { version = "0.23", default-features = false, features = ["ring", "std", "tls12"] }
serde = { version = "1", features = ["derive"] }
sqlx = { version = "0.8", default-features = false, features = ["runtime-tokio", "sqlite"] }
tokio = { version = "1", features = ["full"] }
tokio-rustls = { version = "0.26", default-features = false, features = ["ring", "tls12"] }
tokio-tungstenite = { version = "0.27", features = ["rustls-tls-webpki-roots"] }
webpki-roots = "1"
