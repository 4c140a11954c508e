[package]
name = "canvas_host"
version = "0.1.0"
edition = "2021"
publish = false

[dependencies]
egui = "0.36"
egui_demo_lib = "=0.36.2"
egui_extras = "=0.36.2"
