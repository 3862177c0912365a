[package]
name = "embroidery_svg"
version = "0.1.0"
edition = "2021"
publish = false

[dependencies]
palette = "=0.7.7"
simplelog = "=0.12.2"
log = "=0.4.34"
