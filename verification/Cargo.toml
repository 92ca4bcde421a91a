[package]
name = "gui_core"
version = "0.1.0"
edition = "2021"
publish = false

[dependencies]
murmurhash64 = "=0.3.1"
libc = "=0.2.191"
gl = "=0.14.0"
glfw = { version = "=0.63.0", default-features = false }
png = "=0.18.1"
freetype-sys = "*"
