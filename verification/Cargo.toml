[package]
name = "logtail"
version = "0.1.0"
edition = "2021"
publish = false

[dependencies]
moka = { version = "*", features = ["sync"] }
serde_json = "*"
anyhow = "*"
surf = { version = "*", default-features = false, features = ["h1-client-rustls"] }
futures-util = "*"
tokio = { version = "*", features = ["rt", "rt-multi-thread", "sync", "macros", "time"] }
crossterm = "*"
ratatui = "*"
