[package]
name = "chip8"
version = "0.1.0"
edition = "2021"
publish = false

[dependencies]
rand = "=0.9.5"
log = "=0.4.34"
env_logger = "=0.11.11"
winit = "=0.30.13"
pixels = "0.15"
