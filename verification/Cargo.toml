[package]
name = "neovibe"
version = "0.1.0"
edition = "2021"
publish = false

[dependencies]
env_logger = "0.11"
gl = "0.14"
glutin = "0.32"
glutin-winit = "0.5"
gtk4 = { version = "0.10", features = ["v4_12"] }
libloading = "0.8"
raw-window-handle = "0.6"
skia-safe = { version = "*", features = ["gl"] }
webkit6 = "0.5"
winit = "0.30"
