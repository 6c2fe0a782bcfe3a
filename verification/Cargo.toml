[package]
name = "pumas"
version = "0.1.0"
edition = "2021"
publish = false

[dependencies]
clap = { version = "4", features = ["derive"] }
clap_complete = "4"
num-traits = "0.2"
plist = "1"
prometheus = "*"
ratatui = { version = "*", default-features = false, features = ["termion"] }
serde = { version = "1", features = ["derive"] }
serde_json = "1"
si-scale = "*"
sysinfo = "*"
termion = "*"
thiserror = "1"
tiny_http = "*"
