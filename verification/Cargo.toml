[package]
name = "text_layout"
version = "0.1.0"
edition = "2021"
publish = false

[dependencies]
rangemap = "1"
unicode-segmentation = "1"
unicode-script = "0.5"
fontdb = "0.14"
ttf-parser = "0.19"
rustybuzz = "0.8"
swash = "0.1"
peniko = "*"
log = "0.4"
once_cell = "1"
parking_lot = "0.12"
sys-locale = "0.3"
