[package]
name = "stt"
version = "0.1.0"
edition = "2021"
publish = false

[dependencies]
anyhow = "1.0"
candle-core = "0.9.1"
candle-nn = "0.9.1"
candle-transformers = "0.9.1"
clap = { version = "4.4", features = ["derive"] }
hf-hub = { version = "0.4", default-features = false, features = ["ureq", "rustls-tls"] }
kaudio = "0.2.1"
moshi = "0.6.1"
sentencepiece = "0.11"
serde = { version = "1.0", features = ["derive"] }
serde_json = "1.0"
