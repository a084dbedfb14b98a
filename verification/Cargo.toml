[package]
name = "xdg-shell-wrapper"
version = "0.1.0"
edition = "2021"
publish = false

[dependencies]
shlex = "=1.3.0"
serde = { version = "=1.0.229", features = ["derive"] }
ron = "=0.8.1"
xdg = "=2.5.2"
anyhow = "=1.0.104"
freedesktop-desktop-entry = "=0.5.2"
libc = "=0.2.191"
