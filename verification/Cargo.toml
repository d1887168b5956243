[package]
name = "pcp_rust"
version = "0.1.0"
edition = "2021"
publish = false

[dependencies]
anyhow = "=1.0.104"
clap = { version = "=4.6.7", features = ["derive"] }
dirs = "=6.0.0"
env_logger = "=0.11.11"
freedesktop-icons = "=0.4.0"
hidapi = { version = "=2.6.7", default-features = false, features = ["linux-native-basic-udev"] }
libc = "0.2"
libpulse-binding = "=2.30.1"
log = "0.4"
obws = { version = "=0.14.0", features = ["events"] }
serde = { version = "1", features = ["derive"] }
serde_json = "=1.0.154"
tokio = { version = "=1.54.1", features = ["macros", "process", "rt", "sync", "time"] }
tokio-stream = "=0.1.19"
toml = "=0.9.12"
zbus = "=5.19.0"
