[package]
name = "nali-rs"
version = "0.1.0"
edition = "2021"
publish = false

[dependencies]
anyhow = "1"
atty = "0.2"
clap = { version = "4", features = ["derive"] }
colored = "2"
dirs = "5"
encoding_rs = "0.8"
env_logger = "0.11"
futures-util = "0.3"
indicatif = "0.17"
log = "0.4"
maxminddb = "0.24"
memmap2 = "0.9"
once_cell = "1"
regex = "1"
reqwest = { version = "0.11", default-features = false, features = ["stream", "rustls-tls"] }
serde = { version = "1", features = ["derive"] }
serde_json = "1"
serde_yaml = "0.9"
sevenz-rust = "0.6"
thiserror = "1"
tokio = { version = "1", features = ["macros", "rt-multi-thread"] }
