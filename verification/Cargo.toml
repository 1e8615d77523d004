[package]
name = "grid_games"
version = "0.1.0"
edition = "2021"
publish = false

[dependencies]
rand = "=0.8.8"
serenity = { version = "=0.10.10", features = ["unstable_discord_api"] }
tokio = { version = "1", features = ["macros", "rt-multi-thread", "signal"] }
tracing = "0.1"
tracing-subscriber = "0.3"
dotenvy = "0.15"
