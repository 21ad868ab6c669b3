[package]
name = "crtshmon"
version = "0.1.0"
edition = "2021"
publish = false

[dependencies]
anyhow = "1"
openssl = "0.10"
postgres-openssl = "0.5"
serde = { version = "1", features = ["derive"] }
serde_json = "1"
structopt = "0.3"
tokio = { version = "1", features = ["macros", "rt-multi-thread"] }
tokio-postgres = "0.7"
