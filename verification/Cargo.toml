[package]
name = "compare_heads"
version = "0.1.0"
edition = "2021"
publish = false

[dependencies]
axum = "=0.6.20"
dotenv = "=0.15.0"
env_logger = "=0.10.2"
futures = "=0.3.34"
log = "=0.4.34"
parse_int = "=0.6.0"
reqwest = { version = "=0.11.27", features = ["json"] }
serde = { version = "=1.0.229", features = ["derive"] }
serde_json = "=1.0.154"
tokio = { version = "=1.54.1", features = ["full"] }
