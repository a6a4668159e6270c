[package]
name = "chat_inference"
version = "0.1.0"
edition = "2021"
publish = false

[dependencies]
byteorder = "1"
candle-core = "*"
candle-nn = "*"
candle-transformers = "*"
hf-hub = { version = "*", default-features = false, features = ["ureq"] }
serde = { version = "1", features = ["derive"] }
serde_json = "1"
thiserror = "*"
tokenizers = { version = "*", default-features = false, features = ["onig"] }
tokio = { version = "1", features = ["rt", "sync"] }
