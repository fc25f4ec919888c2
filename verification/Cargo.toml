[package]
name = "authentication"
version = "0.1.0"
edition = "2021"
publish = false

[dependencies]
argon2 = "0.5"
chrono = "0.4"
config = { version = "0.14", default-features = false, features = ["yaml"] }
jsonwebtoken = "9"
rand = "0.8"
secrecy = "0.10"
serde = { version = "1", features = ["derive"] }
serde-aux = "4"
serde_json = { version = "1", features = ["raw_value"] }
sqlx = { version = "0.8", default-features = false, features = ["runtime-tokio", "postgres", "uuid", "chrono", "derive", "migrate"] }
thiserror = "2"
tokio = { version = "1", features = ["macros", "rt-multi-thread"] }
tonic = "0.12"
tracing = "0.1"
unicode-segmentation = "1"
uuid = { version = "1", features = ["v4", "v7", "serde"] }
validator = "0.18"
