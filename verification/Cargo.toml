[package]
name = "tvk"
version = "0.1.0"
edition = "2021"
publish = false

[dependencies]
unicode-width = "=0.2.3"
ratatui = { version = "=0.30.2", default-features = false, features = ["unstable-rendered-line-info"] }
