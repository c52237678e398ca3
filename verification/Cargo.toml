[package]
name = "bot_scaffold"
version = "0.1.0"
edition = "2021"
publish = false

[dependencies]
dotenvy = "0.15"
poise = "0.5"
serenity = "0.11"
sqlx = { version = "0.6", default-features = false, features = ["runtime-tokio-rustls", "postgres"] }
tokio = { version = "1", features = ["macros", "rt-multi-thread", "signal"] }
tracing = { version = "0.1", features = ["log"] }
tracing-subscriber = { version = "0.3", features = ["env-filter"] }
