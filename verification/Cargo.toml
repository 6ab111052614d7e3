[package]
name = "tuige"
version = "0.1.0"
edition = "2021"
publish = false

[dependencies]
blake3 = { version = "1", features = ["pure"] }
cacache = { version = "13", default-features = false, features = ["tokio-runtime"] }
color-eyre = "0.6"
crossterm = { version = "0.28", features = ["event-stream"] }
dirs = "5"
eyre = "0.6"
futures = "0.3"
image = { version = "0.25", default-features = false, features = ["bmp", "gif", "jpeg", "png", "webp"] }
indexmap = "2"
lru = "0.12"
memchr = "2"
ratatui = "0.29"
reqwest = { version = "0.12", features = ["json"] }
serde = { version = "1", features = ["derive"] }
tmi = "*"
tokio = { version = "1", features = ["full"] }
toml = "0.8"
triomphe = "0.1"
tui-textarea = "0.7"
