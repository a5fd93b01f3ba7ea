[package]
name = "sandbox"
version = "0.1.0"
edition = "2021"
publish = false

[dependencies]
rand = "0.9"
rand_xorshift = "0.4"
embedded-graphics = "0.8"
sdl2 = "*"
egui = "0.27"
egui_sdl2_platform = "0.3"
itertools = "*"
