[package]
name = "tradingflow_agents"
version = "0.1.0"
edition = "2021"
publish = false

[dependencies]
arrow = { version = "*", default-features = false }
chrono = "0.4"
clap = { version = "4", features = ["derive"] }
indicatif = "*"
libc = "0.2"
parquet = { version = "*", default-features = false, features = ["arrow", "snap", "zstd"] }
pyo3 = { version = "*", features = ["auto-initialize"] }
serde = { version = "1", features = ["derive"] }
serde_json = "1"
tokio = { version = "1", features = ["macros", "rt-multi-thread"] }
