[package]
name = "snaprust"
version = "0.1.0"
edition = "2021"
publish = false

[dependencies]
arboard = "3"
chrono = "0.4"
eframe = { version = "0.22", default-features = false, features = ["default_fonts", "glow"] }
egui = "0.22"
global-hotkey = "0.4"
image = { version = "0.24", default-features = false, features = ["gif", "jpeg", "png"] }
imageproc = { version = "0.23", default-features = false }
