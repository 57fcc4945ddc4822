[package]
name = "lora_online"
version = "0.1.0"
edition = "2021"
publish = false

[dependencies]
anyhow = "1"
clap = { version = "4", features = ["derive", "env"] }
crossterm = "0.28"
embedded-hal = "1"
embedded-io = "0.6"
env_logger = "0.11"
heapless = "0.8"
libc = "0.2"
log = "0.4"
ratatui = "0.29"
rppal = { version = "*", features = ["hal"] }
rusqlite = { version = "0.31", features = ["bundled"] }
serde = { version = "1", features = ["derive"] }
serde_json = "1"
serialport = { version = "4", default-features = false }
tiny_http = "0.12"
udev = "0.9"
ureq = { version = "2", features = ["json"] }
