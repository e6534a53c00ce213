[package]
name = "trackpad_pointer"
version = "0.1.0"
edition = "2021"
publish = false

[dependencies]
evdev = "*"
mouse-rs = "*"
x11 = { version = "*", features = ["xlib"] }
