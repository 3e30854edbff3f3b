[package]
name = "pixel_picker"
version = "0.1.0"
edition = "2021"
publish = false

[dependencies]
clap = { version = "4", features = ["derive"] }
color-eyre = "0.6"
copypasta-ext = "0.4"
image = "0.24"
softbuffer = "0.2"
termcolor = "1"
winit = "0.28"
x11 = { version = "2", features = ["xlib"] }
