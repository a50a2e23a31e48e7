[package]
name = "ruby_chat"
version = "0.1.0"
edition = "2021"
publish = false

[dependencies]
sysinfo = "*"
tokio = { version = "*", features = ["rt-multi-thread", "macros", "sync", "time"] }
serde = { version = "*", features = ["derive"] }
log = "*"
