[package]
name = "reparent_wm"
version = "0.1.0"
edition = "2021"
publish = false

[dependencies]
x11 = { version = "*", default-features = false }
xcb = "0.9"
xcb-util = { version = "0.3", features = ["keysyms"] }
