[package]
name = "oculus"
version = "0.1.0"
edition = "2021"
publish = false

[dependencies]
chrono = "0.4"
tokio = { version = "1", features = ["full"] }
reqwest = { version = "0.12", default-features = false, features = ["json", "cookies", "rustls-tls"] }
serde = { version = "1", features = ["derive"] }
serde_json = "1"
tokio-postgres = "0.7"
deadpool-postgres = "0.14"
pgvector = { version = "0.4", features = ["postgres"] }
clap = "4"
dotenvy = "0.15"
async-trait = "0.1"
ort = "=2.0.0-rc.13"
ndarray = "0.16"
tokenizers = "*"
