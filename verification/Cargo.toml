[package]
name = "keyboard_hero"
version = "0.5.0"
edition = "2021"
publish = false

[dependencies]
midly = "0.5"
thiserror = "2"
log = "0.4"
cpal = "*"
rodio = "*"
rfd = "*"
winit = "0.30"
