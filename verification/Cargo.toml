[package]
name = "channel_pool"
version = "0.1.0"
edition = "2021"
publish = false

[dependencies]
rand = "0.8.5"
thiserror = "1"
tokio = { version = "1", features = ["macros", "rt", "sync", "time"] }
tonic = { version = "0.11.0", features = ["tls"] }
