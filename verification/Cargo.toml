[package]
name = "way"
version = "0.1.0"
edition = "2021"
publish = false

[dependencies]
branches = "*"
libc = "0.2"
swait = "*"
xutex = "*"

[dev-dependencies]
tokio = { version = "1", features = ["rt", "rt-multi-thread", "time", "macros"] }
