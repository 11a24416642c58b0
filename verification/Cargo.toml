[package]
name = "testfixtures"
version = "0.1.0"
edition = "2021"
publish = false

[dependencies]
yaml-rust = "=0.4.5"
chrono = "=0.4.45"
anyhow = "=1.0.104"
sqlx = { version = "=0.9.0", default-features = false, features = ["mysql", "postgres", "runtime-tokio"] }
