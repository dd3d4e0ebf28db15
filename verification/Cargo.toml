[package]
name = "voice_recorder"
version = "0.1.0"
edition = "2021"
publish = false

[dependencies]
confy = "0.4"
serde = { version = "1", features = ["derive"] }
serenity = { version = "0.10", default-features = false, features = ["builder", "cache", "client", "gateway", "http", "model", "utils", "rustls_backend", "voice", "unstable_discord_api"] }
songbird = "0.2"
tokio = { version = "1", features = ["macros", "rt-multi-thread", "process", "io-util", "sync", "time"] }
