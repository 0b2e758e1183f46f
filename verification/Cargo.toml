[package]
name = "ai-semantic-cache"
version = "0.1.0"
edition = "2021"
publish = false

[dependencies]
anyhow = "1"
async-trait = "0.1"
base64 = "0.22"
hex = "0.4"
pdk = "*"
serde = { version = "1", features = ["derive"] }
serde_json = "1"
sha2 = "0.10"
