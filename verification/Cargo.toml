[package]
name = "desed"
version = "0.1.0"
edition = "2021"
publish = false

[dependencies]
anyhow = "1"
cfg-if = "1"
clap = { version = "4", features = ["cargo"] }
crossterm = "0.17"
inotify = "0.10"
syntect = { version = "5", default-features = false, features = ["default-fancy"] }
tui = { version = "0.9", default-features = false, features = ["crossterm"] }
