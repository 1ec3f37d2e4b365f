[package]
name = "dbcore"
version = "0.1.0"
edition = "2021"
publish = false

[dependencies]
serde = { version = "*", features = ["derive"] }
serde_json = "*"
sqlx = { version = "*", default-features = false, features = ["runtime-tokio", "sqlite", "any"] }
mongodb = "2"
redis = "*"
tokio = { version = "*", features = ["rt-multi-thread", "macros", "time"] }
futures-util = "*"
