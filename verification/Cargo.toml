[package]
name = "webhook_rebind"
version = "0.1.0"
edition = "2021"
publish = false

[dependencies]
dotenv = "0.15"
hyper = { version = "0.14", features = ["client", "http1", "tcp"] }
hyper-tls = "0.5"
serde_json = "1"
tokio = { version = "1", features = ["macros", "rt-multi-thread", "time"] }
