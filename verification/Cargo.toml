[package]
name = "cce_terminal"
version = "0.1.0"
edition = "2021"
publish = false

[dependencies]
alacritty_terminal = "0.25"
calloop = "*"
env_logger = "*"
libc = "0.2"
log = "0.4"
wayland-client = "*"
