[package]
name = "vicuna"
version = "0.1.0"
edition = "2021"
publish = false

[dependencies]
anyhow = "1"
async-stream = "0.3"
chrono = "0.4"
crossterm = "0.28.1"
directories = "6"
futures = "0.3"
image = { version = "0.25", default-features = false, features = ["png"] }
libsql = { version = "0.9", default-features = false, features = ["core"] }
ratatui = "0.29.0"
reqwest = { version = "0.12", default-features = false, features = ["json", "stream", "rustls-tls"] }
serde = { version = "1", features = ["derive"] }
serde_json = "1"
thiserror = "2"
tokio = { version = "1", features = ["full"] }
tokio-util = { version = "0.7", features = ["codec", "io"] }
tracing = "0.1"
tracing-appender = "0.2"
tracing-subscriber = "0.3"
tui-markdown = "=0.3.6"
tui-textarea = "0.7"
uuid = { version = "1", features = ["v4"] }
