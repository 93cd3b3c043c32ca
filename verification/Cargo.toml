[package]
name = "mandelrust"
version = "0.1.0"
edition = "2021"

[dependencies]
rayon = "=1.12.0"
image = { version = "=0.25.10", default-features = false }
palette = "=0.7.7"
num = "=0.4.3"
rust-mpfr = "=0.1.7"
benzene = "*"
carboxyl = "*"
glium = "*"
piston2d-glium_graphics = "*"
pistoncore-glutin_window = "*"
piston2d-graphics = "*"
pistoncore-input = "*"
piston = "*"
