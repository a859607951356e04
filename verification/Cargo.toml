[package]
name = "sticker_relay"
version = "0.4.0"
edition = "2021"
publish = false

[dependencies]
anyhow = "1"
base64 = "0.22"
cookie_store = "0.21"
flate2 = "1"
futures-util = "0.3"
hex = "0.4"
rand = "0.9"
regex = "1"
reqwest = { version = "0.12", default-features = false, features = ["json", "stream", "cookies", "rustls-tls"] }
security-framework = "3"
semver = "1"
serde = { version = "1", features = ["derive"] }
serde_json = "1"
sha2 = "0.10"
tar = "0.4"
tokio = { version = "1", features = ["process", "time", "sync", "macros", "rt-multi-thread", "fs"] }
url = "2"
urlencoding = "2"
windows-sys = { version = "0.59", features = ["Win32_Foundation", "Win32_Security_Cryptography"] }
zip = { version = "2", default-features = false, features = ["deflate"] }
