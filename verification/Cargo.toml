[package]
name = "json_firestore_seed"
version = "0.1.0"
edition = "2021"
publish = false

[dependencies]
chrono = "0.4"
rand = "0.10"
tokio-retry = "0.3"
serde = { version = "1", features = ["derive"] }
serde_json = "1"
firestore = "*"
clap = { version = "4", features = ["derive"] }
colored = "*"
futures = "0.3"
indicatif = "*"
tokio = { version = "1", features = ["macros", "rt-multi-thread"] }
rustls = { version = "0.23", features = ["ring"] }
thiserror = "2"
