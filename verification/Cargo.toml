[package]
name = "faithful"
version = "0.1.0"
edition = "2021"
publish = false

[dependencies]
cgmath = "0.18"
clap = "4"
env_logger = "0.10"
gl46 = "0.2"
glutin = "0.29"
image = "0.24"
log = "0.4"
num-traits = "0.2"
