[package]
name = "icon_pie"
version = "0.1.0"
edition = "2021"
publish = false

[dependencies]
image = "*"
png_encode_mini = "*"
zip = { version = "*", default-features = false }
crossterm = "*"
nsvg = "*"
ico = "*"
icns = "*"
