[package]
name = "dwmbar"
version = "0.1.0"
edition = "2021"
publish = false

[dependencies]
chrono = "*"
tokio = { version = "*", features = ["rt-multi-thread", "macros", "time", "sync", "process", "fs"] }
argh = "*"
anyhow = "*"
dbus = "*"
dbus-tokio = "*"
tracing = "*"
tracing-subscriber = "*"
