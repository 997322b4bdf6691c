[package]
name = "marzban_exporter"
version = "0.1.0"
edition = "2021"
publish = false

[dependencies]
axum = "0.7"
dotenv = "0.15"
log = "0.4"
reqwest = { version = "0.12", default-features = false, features = ["json"] }
serde = { version = "1", features = ["derive"] }
serde_json = "1"
tokio = { version = "1", features = ["macros", "rt-multi-thread", "time", "sync", "net"] }
