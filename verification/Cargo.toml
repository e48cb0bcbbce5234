[package]
name = "ddpm"
version = "0.1.0"
edition = "2021"
publish = false

[dependencies]
ddc-hi = { version = "=0.4.1", default-features = false }
eframe = { version = "=0.33.3", default-features = false, features = ["default_fonts", "glow", "wayland", "x11"] }
egui = "=0.33.3"
env_logger = "=0.11.11"
log = "=0.4.35"
