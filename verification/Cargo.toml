[package]
name = "screenshot"
version = "0.1.0"
edition = "2021"
publish = false

[dependencies]
anyhow = "1"
captrs = "*"
chrono = "0.4"
eframe = { version = "*", default-features = false, features = ["default_fonts", "glow", "wayland", "x11"] }
evdev = "*"
home = "*"
image = { version = "*", default-features = false, features = ["png"] }
resvg = { version = "*", default-features = false }
serde = { version = "1", features = ["derive"] }
serde_json = "1"
x11-dl = "*"
zbus = "*"
