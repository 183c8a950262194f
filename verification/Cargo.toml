[package]
name = "night_light"
version = "0.1.0"
edition = "2021"
publish = false

[dependencies]
jiff = "0.2"
tracing = "0.1"
zbus = "5"
wayland-backend = "0.3"
smithay = { version = "0.7", default-features = false, features = ["wayland_frontend", "backend_drm"] }
