[package]
name = "apk_installer"
version = "0.1.0"
edition = "2021"
publish = false

[dependencies]
egui = "=0.27.2"
egui_extras = { version = "=0.27.2", features = ["file", "image"] }
image = { version = "0.24", default-features = false, features = ["png"] }
rfd = "=0.14.1"
