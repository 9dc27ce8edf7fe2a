[package]
name = "agent_computer"
version = "0.1.0"
edition = "2021"
publish = false

[dependencies]
serde = { version = "1", features = ["derive"] }
serde_json = "1"
clap = { version = "4", features = ["derive"] }
tokio = { version = "1", features = ["rt-multi-thread", "macros", "net", "io-util", "signal", "sync", "process", "time"] }
ureq = "2"
dirs = "*"
chrono = "0.4"
libc = "0.2"
core-foundation = "0.9"
core-graphics = "0.23"
foreign-types = "0.5"
objc2-app-kit = "0.3"
