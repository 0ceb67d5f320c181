[package]
name = "emu_core"
version = "0.1.0"
edition = "2021"
publish = false

[dependencies]
gl = "*"
imgui = "*"
imgui-sys = "*"
num = "*"
sdl2 = "*"
slog = "2"
