[package]
name = "roombot"
version = "0.1.0"
edition = "2021"
publish = false

[dependencies]
anyhow = "1"
dotenv = "0.15"
matrix-sdk = { version = "0.6.2", default-features = false, features = ["rustls-tls"] }
openai-api-rs = "4.0"
tokio = { version = "1", features = ["macros", "rt-multi-thread", "time"] }
