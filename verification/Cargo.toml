[package]
name = "iced_color_picker"
version = "0.1.0"
edition = "2021"
publish = false

[dependencies]
iced_core = "=0.14.0"
iced_graphics = { version = "=0.14.0", features = ["geometry"] }
