[package]
name = "redis_clone"
version = "0.1.0"
edition = "2021"
publish = false

[dependencies]
tokio = { version = "1", features = ["full"] }
dotenvy = "0.15"
