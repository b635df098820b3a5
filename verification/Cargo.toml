[package]
name = "discrivener"
version = "0.1.0"
edition = "2021"
publish = false

[dependencies]
async-trait = "0.1"
bytes = "1"
espeakng-sys = "*"
futures = "0.3"
lazy_static = "1"
rubato = "0.14"
serde = { version = "1", features = ["derive"] }
serde_with = "3"
songbird = { version = "0.3", default-features = false, features = ["driver", "rustls"] }
tokio = { version = "1", features = ["full"] }
tokio-util = "0.7"
whisper-rs = "0.8"
