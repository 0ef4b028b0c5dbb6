[package]
name = "zju_booking"
version = "0.1.0"
edition = "2021"
publish = false

[dependencies]
aes = "0.8"
cbc = { version = "0.1", features = ["alloc"] }
base64 = "0.22"
num-bigint = "0.4"
serde_json = "1"
chrono = "0.4"
dashmap = "6"
reqwest = { version = "0.12", default-features = false, features = ["json", "cookies", "rustls-tls"] }
serde = { version = "1", features = ["derive"] }
anyhow = "1"
thiserror = "2"
axum = "0.8"
tokio = { version = "1", features = ["macros", "rt-multi-thread", "sync", "time", "net"] }
sqlx = { version = "0.8", default-features = false, features = ["runtime-tokio", "sqlite"] }
tower-http = { version = "0.6", features = ["fs"] }
uuid = { version = "1", features = ["v4"] }
