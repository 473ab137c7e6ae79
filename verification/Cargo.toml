[package]
name = "ime_bridge"
version = "0.1.0"
edition = "2021"
publish = false

[dependencies]
tracing = "=0.1.44"
wayland-protocols = { version = "=0.32.13", features = ["server", "unstable"] }
wayland-server = "=0.31.14"
xkbcommon = { version = "=0.8.0", default-features = false }
xkeysym = "=0.2.1"
