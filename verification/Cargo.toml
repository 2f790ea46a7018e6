[package]
name = "color_picker"
version = "0.1.0"
edition = "2021"
publish = false

[dependencies]
hex = "0.4"
log = "0.4"
open = "5"
bytemuck = { version = "1", features = ["derive"] }
ashpd = "*"
