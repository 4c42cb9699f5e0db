[package]
name = "osgui"
version = "0.1.0"
edition = "2021"
publish = false

[dependencies]
minifb = "*"
rusttype = "0.9"
winit = "0.30"
