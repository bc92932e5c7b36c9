[package]
name = "speaktype_cloud"
version = "0.1.0"
edition = "2021"
publish = false

[dependencies]
serde = { version = "1", features = ["derive"] }
serde_json = "1"
semver = "1"
reqwest = { version = "0.12", default-features = false, features = ["json", "multipart", "stream", "blocking"] }
sha2 = "0.10"
zhhz = "*"
chrono = { version = "0.4", features = ["serde"] }
toml = "*"
base64 = "0.22"
tokio = { version = "1", features = ["rt", "macros", "sync", "time", "net"] }
tokio-tungstenite = "*"
futures-util = "0.3"
hound = "3"
directories = "*"
thiserror = "*"
async-trait = "0.1"
crossbeam-queue = "0.3"
