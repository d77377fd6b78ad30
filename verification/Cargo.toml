[package]
name = "opi_coding_agent"
version = "0.5.3"
edition = "2021"
publish = false

[dependencies]
base64 = "0.22"
percent-encoding = "2"
sha2 = "0.10"
serde = { version = "1", features = ["derive"] }
serde_json = "1"
toml = "0.8"
clap = { version = "4", features = ["derive"] }
clap_complete = "4"
rand = "0.8"
tokio = { version = "1", features = ["rt-multi-thread", "net", "io-util", "time", "macros"] }
