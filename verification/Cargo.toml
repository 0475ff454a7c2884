[package]
name = "ejustice_mcp"
version = "0.1.0"
edition = "2021"
publish = false

[dependencies]
scraper = "*"
ego-tree = "*"
regex = "1"
serde_json = "1"
serde = { version = "1", features = ["derive"] }
base64 = "0.22"
bytes = "1"
reqwest = { version = "0.12", default-features = false, features = ["rustls-tls", "cookies", "json"] }
rmcp = { version = "*", features = ["server", "macros", "transport-io"] }
tokio = { version = "1", features = ["rt-multi-thread", "macros"] }
tracing = "0.1"
tracing-subscriber = "0.3"
