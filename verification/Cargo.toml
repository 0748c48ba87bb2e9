[package]
name = "gitizen"
version = "0.1.0"
edition = "2021"
publish = false

[dependencies]
eframe = { version = "*", default-features = false, features = ["glow", "default_fonts", "x11"] }
egui = "*"
egui_extras = "*"
git2 = { version = "*", default-features = false }
thiserror = "*"
