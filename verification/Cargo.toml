[package]
name = "logtail"
version = "0.1.0"
edition = "2021"
publish = false

[dependencies]
chrono = "0.4"
env_logger = "*"
log = "0.4"
notify = "*"
regex = "1"
reqwest = { version = "*", default-features = false, features = ["json"] }
serde = { version = "1", features = ["derive"] }
tokio = { version = "1", features = ["rt", "rt-multi-thread"] }
toml = "*"
winapi = { version = "0.3", features = ["fileapi", "handleapi", "minwinbase", "ntdef", "winbase", "winnt"] }
