[package]
name = "ota_core"
version = "0.1.0"
edition = "2021"
publish = false

[dependencies]
serde_json = "*"
spin = "*"
actix-web = "*"
tokio = { version = "*", features = ["macros", "rt-multi-thread"] }
