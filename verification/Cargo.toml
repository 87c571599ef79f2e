[package]
name = "ribb"
version = "0.1.0"
edition = "2021"
publish = false

[dependencies]
arboard = "3"
bytemuck = "1"
chrono = "0.4"
directories = "*"
html-escape = "0.2"
image = { version = "0.25", default-features = false, features = ["jpeg", "png", "gif", "webp"] }
open = "5"
reqwest = { version = "0.12", default-features = false, features = ["rustls-tls"] }
serde = { version = "1", features = ["derive"] }
serde_json = "1"
tempfile = "3"
thiserror = "2"
tokio = { version = "1", features = ["rt-multi-thread", "macros", "time", "sync"] }
tracing = "0.1"
tracing-subscriber = { version = "0.3", features = ["env-filter"] }
