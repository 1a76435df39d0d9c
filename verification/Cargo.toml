[package]
name = "money_store"
version = "0.1.0"
edition = "2021"
publish = false

[dependencies]
sqlx = { version = "*", default-features = false, features = ["runtime-tokio", "sqlite"] }
tokio = { version = "*", default-features = false, features = ["rt", "macros"] }
