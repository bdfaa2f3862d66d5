[package]
name = "clickinaresi"
version = "0.1.0"
edition = "2021"
publish = false

[dependencies]
serde_json = "1"
eframe = { version = "0.30", default-features = false, features = ["default_fonts", "glow", "persistence", "x11"] }
egui = "0.30"
rfd = { version = "0.15", default-features = false, features = ["gtk3"] }
