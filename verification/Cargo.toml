[package]
name = "image_average"
version = "0.1.0"
edition = "2021"

[dependencies]
image = "*"
