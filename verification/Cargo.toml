[package]
name = "camera_calib_core"
version = "0.1.0"
edition = "2021"
publish = false

[dependencies]
camera-intrinsic-model = "*"
tiny-solver = "*"
sqpnp_simple = "*"
nalgebra = "*"
glam = "*"
num-dual = "*"
