[package]
name = "chat"
version = "0.1.0"
edition = "2021"
publish = false

[dependencies]
unicode-width = "0.1"
serde = { version = "1", features = ["derive"] }
serde_json = "1"
sqlite = "0.30"
colored = "2"
crossterm = "0.25"
tui = "0.19"
tokio = { version = "1", features = ["rt-multi-thread", "macros"] }
gtk = "0.18"
