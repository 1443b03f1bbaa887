[package]
name = "parabolic_rust"
version = "0.1.0"
edition = "2021"
publish = false

[dependencies]
macroquad = "0.4"
chrono = "0.4"
plotters = "0.3"
