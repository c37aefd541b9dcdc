[package]
name = "thread_palette"
version = "0.1.0"
edition = "2021"
publish = false

[dependencies]
rayon = "*"
image = "*"
imageproc = "*"
csv = "*"
