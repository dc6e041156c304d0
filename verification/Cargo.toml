[package]
name = "sitemap_reports"
version = "0.1.0"
edition = "2021"
publish = false

[dependencies]
url = "*"
serde = { version = "*", features = ["derive"] }
serde_json = "*"
toml = "*"
tokio = { version = "*", features = ["rt", "rt-multi-thread", "macros", "sync", "time"] }
axum = "*"
futures = "*"
tokio-stream = "*"
reqwest = { version = "*", default-features = false, features = ["json"] }
