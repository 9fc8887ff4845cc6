[package]
name = "image_process"
version = "0.1.0"
edition = "2021"
publish = false

[dependencies]
image = "0.24"
imageproc = "0.23"
base64 = "0.13"
chrono = "0.4"
