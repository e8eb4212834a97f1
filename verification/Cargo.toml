[package]
name = "credential_core"
version = "0.1.0"
edition = "2021"
publish = false

[dependencies]
aes-gcm = "0.10"
sha2 = "0.10"
hmac = "0.12"
rand = "0.8"
uuid = { version = "1", features = ["v4"] }
chrono = "0.4"
serde_json = "1"
sqlx = { version = "0.8", features = ["postgres", "runtime-tokio"] }
async-trait = "0.1"
anyhow = "1"
