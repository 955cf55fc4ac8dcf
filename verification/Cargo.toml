[package]
name = "jlr_mandelbrot"
version = "0.1.0"
edition = "2021"
publish = false

[dependencies]
chrono = "0.4.23"
image = "0.23"
minifb = "0.23"
