[package]
name = "watchlist"
version = "0.1.0"
edition = "2021"
publish = false

[dependencies]
serde = { version = "=1.0.229", features = ["derive"] }
serde_json = "=1.0.154"
ureq = "=2.12.1"
egui = "=0.23.0"
eframe = { version = "=0.23.0", default-features = false, features = ["default_fonts", "glow"] }
egui_extras = { version = "=0.23.0", features = ["file", "http", "image"] }
egui-toast = "=0.9.0"
image = { version = "=0.24.9", default-features = false, features = ["jpeg", "png"] }
open = "=5.4.5"
