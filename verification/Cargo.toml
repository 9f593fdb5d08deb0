[package]
name = "tilebook"
version = "0.1.0"
edition = "2021"
publish = false

[dependencies]
anyhow = "*"
bytes = "*"
futures = "*"
image = { version = "*", default-features = false, features = ["jpeg"] }
regex = "*"
reqwest = { version = "*", default-features = false }
serde_json = "*"
tokio = { version = "*", features = ["macros", "rt-multi-thread", "sync", "time", "fs", "io-util"] }
url = "*"
