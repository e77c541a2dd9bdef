[package]
name = "localtransfer"
version = "0.1.0"
edition = "2021"
publish = false

[dependencies]
byteorder = "1"
bytes = "1"
crc32fast = "1"
rand = "0.9"
dashmap = "6"
local-ip-address = "0.6"
tokio = { version = "1", features = ["rt-multi-thread", "macros", "net", "io-util", "sync", "time"] }
tracing = "0.1"
tracing-subscriber = "0.3"
walkdir = "2"

[dev-dependencies]
base64 = "0.22"
