[package]
name = "matui"
version = "0.1.0"
edition = "2021"
publish = false

[dependencies]
regex = "=1.13.1"
textwrap = "=0.16.4"
emojis = "=0.9.1"
timeago = { version = "=0.6.1", default-features = false }
linkify = "=0.11.0"
chrono = { version = "=0.4.45", default-features = false, features = ["clock", "std"] }
rand = "=0.9.5"
human_bytes = { version = "=0.4.3", default-features = false }
mime = "=0.3.17"
ruma = { version = "=0.17.2", default-features = false, features = ["events"] }
crossterm = "=0.29.0"
ratatui = { version = "=0.30.2", default-features = false, features = ["crossterm"] }
tokio = { version = "=1.54.1", features = ["rt-multi-thread", "time"] }
futures = "=0.3.34"
anyhow = "=1.0.104"
dirs = "=7.0.0"
open = "=5.4.5"
image = { version = "=0.25.10", default-features = false, features = ["png", "jpeg"] }
config = { version = "=0.15.27", default-features = false, features = ["toml"] }
notify = "=8.2.1"
tempfile = "=3.27.0"
serde = { version = "=1.0.229", features = ["derive"] }
serde_json = "=1.0.154"
log = "=0.4.34"
notify-rust = "4"
native-dialog = "0.9"
