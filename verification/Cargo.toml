[package]
name = "zovawm"
version = "0.1.0"
edition = "2021"
publish = false

[dependencies]
nix = { version = "*", features = ["signal", "process"] }
toml = "*"
x11 = { version = "*", features = ["xlib", "xft", "xrender"] }
