[package]
name = "synarion"
version = "0.1.0"
edition = "2021"
publish = false

[dependencies]
glam = "*"
hashbrown = "*"
raw-window-handle = "0.6"
thiserror = "*"
winit = "*"
