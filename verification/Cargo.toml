[package]
name = "tomato"
version = "0.1.0"
edition = "2021"
publish = false

[dependencies]
anyhow = "1"
cairo-rs = "0.20"
chrono = { version = "0.4", features = ["serde"] }
dirs = "6"
gdk4 = "0.9"
gdk4-wayland = { version = "0.9", features = ["wayland_crate"] }
gtk4 = "0.9"
gtk4-layer-shell = "0.5"
ksni = "0.2"
libadwaita = "0.7"
notify-rust = "4"
pango = "0.20"
serde = { version = "1", features = ["derive"] }
serde_json = "1"
toml = "0.8"
wayland-client = "0.31"
wayland-protocols-plasma = { version = "0.3", features = ["client"] }
