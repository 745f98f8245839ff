[package]
name = "rgx"
version = "0.1.0"
edition = "2021"
publish = false

[dependencies]
regex = "1"
fancy-regex = "0.14"
pcre2 = "0.2"
regex-syntax = "0.8"
unicode-width = "0.2"
grex = { version = "1.4", default-features = false }
serde = { version = "1", features = ["derive"] }
serde_json = "1"
toml = "0.8"
anyhow = "1"
arboard = "3"
clap = { version = "4", features = ["derive"] }
clap_complete = "4"
crossterm = { version = "0.28", features = ["event-stream"] }
ratatui = "0.29"
tokio = { version = "1", features = ["macros", "rt-multi-thread", "sync", "time"] }
tokio-stream = "0.1"
dirs = "5"
