[package]
name = "wayland-agent"
version = "0.1.0"
edition = "2021"
publish = false

[dependencies]
anyhow = "=1.0.104"
ashpd = { version = "=0.13.13", features = ["remote_desktop", "screencast"] }
clap = { version = "=4.6.7", features = ["derive"] }
enumflags2 = "=0.7.12"
futures-util = "=0.3.34"
image = { version = "=0.25.10", default-features = false, features = ["png"] }
libc = "=0.2.191"
pipewire = "=0.9.2"
serde = { version = "=1.0.229", features = ["derive"] }
serde_json = "=1.0.154"
tokio = { version = "=1.54.1", features = ["rt", "macros", "net", "io-util", "sync", "time"] }
zbus = "=5.19.0"
zvariant = "=5.15.1"
