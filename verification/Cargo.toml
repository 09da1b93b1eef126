[package]
name = "newsletter"
version = "0.1.0"
edition = "2021"
publish = false

[dependencies]
actix-session = { version = "0.7", features = ["redis-rs-session"] }
actix-web = "4"
actix-web-flash-messages = { version = "0.4", features = ["cookies"] }
actix-web-lab = "0.18"
anyhow = "1"
argon2 = { version = "0.4", features = ["std"] }
base64 = "0.21"
chrono = { version = "0.4", default-features = false, features = ["clock"] }
rand = { version = "0.8", features = ["std_rng"] }
reqwest = { version = "0.11", default-features = false, features = ["json", "rustls-tls"] }
secrecy = { version = "0.8", features = ["serde"] }
serde = { version = "1", features = ["derive"] }
sqlx = { version = "0.6", default-features = false, features = ["runtime-actix-rustls", "postgres", "uuid", "chrono", "offline"] }
thiserror = "1"
tokio = { version = "1", features = ["macros", "rt-multi-thread"] }
tracing = { version = "0.1", features = ["log"] }
tracing-actix-web = "0.7"
unicode-segmentation = "1"
uuid = { version = "1", features = ["v4", "serde"] }
validator = "0.16"
zxcvbn = "2"
