[package]
name = "cs_tui"
version = "0.1.0"
edition = "2021"
publish = false

[dependencies]
crossterm = "*"
image = { version = "0.25", default-features = false, features = ["png", "jpeg", "gif", "webp"] }
pulldown-cmark = { version = "*", default-features = false }
ratatui = "*"
ratatui-image = { version = "*", default-features = false }
time = "0.3"
tokio = { version = "1", features = ["full"] }
tracing = "0.1"
unicode-width = "0.2"
