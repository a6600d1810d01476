[package]
name = "test_session"
version = "0.1.0"
edition = "2021"
publish = false

[dependencies]
async-std = "1"
async-trait = "0.1"
sqlx = { version = "=0.8.6", default-features = false, features = ["runtime-async-std", "postgres", "migrate"] }
tide = "=0.16.0"
