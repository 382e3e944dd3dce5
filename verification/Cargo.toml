[package]
name = "tule_desktop"
version = "0.1.0"
edition = "2021"
publish = false

[dependencies]
serde = { version = "1", features = ["derive"] }
serde_json = "1"
base64 = "0.22"
getrandom = "0.3"
url = "2"
zeroize = "1"
oauth2 = { version = "5", default-features = false }
reqwest = { version = "0.12", default-features = false, features = ["blocking", "stream", "rustls-tls"] }
tokio = { version = "1", features = ["net", "io-util", "time", "sync", "macros", "rt-multi-thread"] }
tokio-util = "0.7"
futures-util = "0.3"
keyring-core = "*"
windows-native-keyring-store = "*"
