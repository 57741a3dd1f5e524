[package]
name = "lumen"
version = "0.1.0"
edition = "2021"
publish = false

[dependencies]
crc32fast = "1"
memmap2 = "0.9"
libc = "0.2"
log = "0.4"
env_logger = "0.11"
chrono = "0.4"
uuid = { version = "1", features = ["v4"] }
