[package]
name = "status_notifier"
version = "0.1.0"
edition = "2021"
publish = false

[dependencies]
zbus = { version = "*", features = ["tokio"] }
zbus_names = "*"
tokio = { version = "*", features = ["rt-multi-thread", "macros"] }
futures = "*"
