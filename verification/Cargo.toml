[package]
name = "alavai"
version = "0.1.0"
edition = "2021"
publish = false

[dependencies]
anyhow = "=1.0.104"
clap = { version = "=4.6.7", features = ["derive"] }
iced = { version = "=0.14.0", default-features = false, features = ["tiny-skia", "svg", "x11", "wayland", "thread-pool", "crisp", "web-colors"] }
ksni = { version = "=0.3.7", default-features = false, features = ["async-io", "blocking"] }
serde = { version = "=1.0.229", features = ["derive"] }
serde_json = "=1.0.154"
zbus = "=5.19.0"
