[package]
name = "risque"
version = "0.1.0"
edition = "2021"
publish = false

[dependencies]
axum = "0.8"
glob = "0.3"
libc = "0.2"
rand = "0.9"
serde = { version = "1", features = ["derive"] }
tokio = { version = "1", features = ["full"] }
tower-http = { version = "0.6", features = ["cors"] }
