[package]
name = "swr"
version = "0.1.0"
edition = "2021"
publish = false

[dependencies]
glam = "*"
winit = "0.30"
softbuffer = "0.4"
