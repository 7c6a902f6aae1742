[package]
name = "unisbom"
version = "0.1.0"
edition = "2021"
publish = false

[dependencies]
chrono = { version = "0.4", features = ["serde"] }
clap = { version = "4", features = ["derive"] }
csv = "1"
log = "0.4"
pretty_env_logger = "*"
serde = { version = "1", features = ["derive"] }
serde_json = "1"
windows = { version = "*", features = ["Win32_Foundation", "Win32_Storage_FileSystem"] }
winreg = { version = "*", features = ["chrono"] }
