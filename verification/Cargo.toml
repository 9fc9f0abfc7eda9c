[package]
name = "rustsocks"
version = "0.1.0"
edition = "2021"
publish = false

[dependencies]
bytes = "1"
dashmap = "*"
env_logger = "*"
futures = "0.3"
libc = "0.2"
log = "0.4"
lru_time_cache = "*"
socket2 = { version = "*", features = ["all"] }
tokio = { version = "1", features = ["full"] }
