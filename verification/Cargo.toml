[package]
name = "noral_web"
version = "0.1.0"
edition = "2021"
publish = false

[dependencies]
serde_json = "1"
serde = { version = "1", features = ["derive"] }
serde-big-array = "0.5"
axum = "0.7"
tokio = { version = "1", features = ["rt-multi-thread", "macros", "net"] }
ureq = "2"
