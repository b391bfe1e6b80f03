[package]
name = "taskbar_twitch"
version = "1.0.3"
edition = "2021"
publish = false

[dependencies]
serde_json = "1"
reqwest = { version = "*", default-features = false }
tokio = { version = "1", features = ["rt-multi-thread", "macros", "time"] }
structopt = "0.3"
open = "*"
