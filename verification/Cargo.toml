[package]
name = "my_notice_app"
version = "0.1.0"
edition = "2021"
publish = false

[dependencies]
serde = { version = "1", features = ["derive"] }
serde_json = "1"
chrono = "0.4"
toml = "*"
anyhow = "1"
log = "0.4"
tungstenite = "*"
ureq = { version = "3", default-features = false }
open = "*"
tokio = { version = "1", features = ["rt-multi-thread", "macros", "time", "sync"] }
reqwest = { version = "0.12", default-features = false, features = ["stream", "json"] }
futures-util = "0.3"
bytes = "1"
tokio-util = "0.7"
smol = "2"
url = "2"
