[package]
name = "xerotop"
version = "0.1.0"
edition = "2021"
publish = false

[dependencies]
async-channel = "2"
gtk4 = "*"
system-tray = "*"
tokio = { version = "1", features = ["rt", "macros", "sync"] }
ureq = "3"
wayland-client = "0.31"
wayland-protocols-wlr = { version = "0.3", features = ["client"] }
