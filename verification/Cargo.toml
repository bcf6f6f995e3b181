[package]
name = "easy_prefs"
version = "0.1.0"
edition = "2021"
publish = false

[dependencies]
toml = "*"
tempfile = "3"
once_cell = "1"
web-sys = { version = "0.3", features = ["Storage", "Window"] }
