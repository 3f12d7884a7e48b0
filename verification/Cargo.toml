[package]
name = "mandelbrot"
version = "0.1.0"
edition = "2021"
publish = false

[dependencies]
bytemuck = "=1.25.2"
image = "=0.24.9"
num = "=0.4.3"
rayon = "=1.12.0"
