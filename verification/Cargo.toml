[package]
name = "falling_sand"
version = "0.1.0"
edition = "2021"
publish = false

[dependencies]
delegate = "0.13"
eframe = { version = "0.32", default-features = false, features = ["default_fonts", "glow", "x11"] }
egui = "0.32"
rand = "0.9"
