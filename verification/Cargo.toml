[package]
name = "mail-imap-mcp-rs"
version = "0.1.0"
edition = "2021"
publish = false

[dependencies]
ammonia = "4"
async-imap = { version = "*", default-features = false, features = ["runtime-tokio"] }
base64 = "0.22"
chrono = { version = "0.4", default-features = false, features = ["clock", "std"] }
dotenvy = "0.15"
futures = "0.3"
mailparse = "*"
pdf-extract = "*"
regex = "1"
rmcp = { version = "*", features = ["server", "macros", "transport-io"] }
rustls = { version = "0.23", default-features = false, features = ["ring", "std", "tls12", "logging"] }
rustls-pki-types = "1"
schemars = "*"
secrecy = "0.10"
serde = { version = "1", features = ["derive"] }
serde_json = "1"
thiserror = "2"
tokio = { version = "1", features = ["rt-multi-thread", "macros", "net", "time", "sync", "io-std", "io-util"] }
tokio-rustls = { version = "0.26", default-features = false, features = ["ring", "tls12", "logging"] }
tracing = "0.1"
tracing-subscriber = { version = "0.3", features = ["env-filter"] }
urlencoding = "2"
uuid = { version = "1", features = ["v4"] }
webpki-roots = "*"
