[package]
name = "which_llm"
version = "0.1.0"
edition = "2021"
publish = false

[dependencies]
chrono = { version = "=0.4.45", features = ["serde"] }
clap = { version = "=4.6.7", features = ["derive"] }
csv = "=1.4.0"
dirs = "=5.0.1"
duckdb = { version = "=1.20000.0", default-features = false }
hex = "=0.4.3"
reqwest = { version = "=0.12.28", default-features = false, features = ["json", "rustls-tls"] }
serde = { version = "=1.0.229", features = ["derive"] }
serde_json = "=1.0.154"
sha2 = "=0.10.9"
tabled = "=0.22.0"
tokio = { version = "=1.54.1", features = ["macros", "rt-multi-thread"] }
