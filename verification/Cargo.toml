[package]
name = "pdf-summarizer"
version = "0.1.0"
edition = "2021"
publish = false

[dependencies]
anyhow = "=1.0.104"
clap = { version = "=4.6.7", features = ["derive", "env"] }
dirs = "=7.0.0"
futures-util = "=0.3.34"
half = "=2.7.1"
indicatif = "=0.18.6"
lopdf = { version = "=0.46.0", default-features = false }
pdf-extract = "=0.12.1"
reqwest = { version = "=0.12.28", default-features = false, features = ["rustls-tls", "stream", "json"] }
safetensors = "=0.8.0"
serde = { version = "=1.0.229", features = ["derive"] }
serde_json = "=1.0.154"
thiserror = "=2.0.21"
tokenizers = { version = "=0.23.2", default-features = false, features = ["fancy-regex"] }
tokio = { version = "=1.54.1", features = ["rt-multi-thread", "fs", "io-util"] }
tracing = "=0.1.44"
tracing-subscriber = "=0.3.23"
walkdir = "=2.5.0"

[dev-dependencies]
tempfile = "=3.27.0"
