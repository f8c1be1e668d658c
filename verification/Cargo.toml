[package]
name = "metatron"
version = "0.1.0"
edition = "2021"
publish = false

[dependencies]
kdl = "=6.7.1"
serde_json = "=1.0.151"
serde_yaml = "=0.9.34"
shiva = { version = "=1.4.9", default-features = false, features = ["text", "html"] }
axum = "=0.8.9"
tokio = { version = "=1.53.2", features = ["rt-multi-thread", "net", "macros"] }
serde = { version = "=1.0.229", features = ["derive"] }
bytes = "=1.12.1"
