[package]
name = "purpose-binding"
version = "0.1.0"
edition = "2021"
publish = false

[dependencies]
anyhow = "1"
base64 = "0.22"
pdk = "*"
serde = { version = "1", features = ["derive"] }
serde_json = "1"
