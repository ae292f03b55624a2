[package]
name = "zero2prod"
version = "0.1.0"
edition = "2021"
publish = false

[dependencies]
anyhow = "1"
argon2 = { version = "=0.5.3", features = ["std"] }
axum = { version = "0.8", features = ["macros"] }
axum-messages = "0.8"
base64 = "=0.22.1"
chrono = { version = "0.4", default-features = false, features = ["clock"] }
config = { version = "0.15", default-features = false, features = ["yaml"] }
hyper = "=1.12.0"
rand = { version = "=0.8.8", features = ["std_rng"] }
reqwest = { version = "0.12", default-features = false, features = ["json"] }
secrecy = { version = "0.10", features = ["serde"] }
serde = { version = "1", features = ["derive"] }
serde-aux = "4"
serde_json = "1"
sqlx = { version = "0.8", default-features = false, features = ["runtime-tokio", "mysql", "uuid", "chrono"] }
thiserror = "1"
tokio = { version = "1", features = ["macros", "rt-multi-thread", "net", "time"] }
tower = "0.5"
tower-http = { version = "0.6", features = ["trace", "cors"] }
tower-sessions = { version = "0.14", features = ["signed"] }
tower-sessions-redis-store = "0.16"
tracing = "0.1"
tracing-subscriber = { version = "0.3", features = ["env-filter"] }
unicode-segmentation = "=1.13.3"
uuid = { version = "=1.29.0", features = ["v4", "serde"] }
validator = "=0.21.0"

[dev-dependencies]
bincode = "=1.3.3"
