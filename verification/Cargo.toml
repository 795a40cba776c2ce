[package]
name = "whep_player"
version = "0.1.0"
edition = "2021"
publish = false

[dependencies]
str0m = "*"
bytes = "*"
local-ip-address = "*"
tokio = { version = "*", features = ["rt", "rt-multi-thread", "net", "time", "macros", "sync"] }
reqwest = { version = "*", default-features = false }
axum = "*"
clap = { version = "*", features = ["derive"] }
serde = { version = "*", features = ["derive"] }
anyhow = "*"
futures = "*"
tracing = "*"
tracing-subscriber = "*"
tracing-appender = "*"
ffmpeg-next = "*"
