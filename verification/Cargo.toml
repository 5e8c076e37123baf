[package]
name = "server_monitor"
version = "0.1.0"
edition = "2021"
publish = false

[dependencies]
anyhow = "1"
chrono = "=0.4.45"
dotenvy = "0.15"
futures = "0.3"
reqwest = { version = "0.12", default-features = false }
sqlx = { version = "0.8", default-features = false, features = ["runtime-tokio", "sqlite"] }
takecell = "=0.1.1"
teloxide = "0.13"
tokio = { version = "1", features = ["macros", "rt-multi-thread", "time"] }

[dev-dependencies]
rand = "0.8"
