[package]
name = "tetris"
version = "0.1.0"
edition = "2021"
publish = false

[dependencies]
rand = "0.8"
winit = { version = "0.29", default-features = false, features = ["rwh_06", "x11"] }
winit_input_helper = "0.16"
env_logger = { version = "0.11", default-features = false }
error-iter = "0.4"
log = "0.4"
