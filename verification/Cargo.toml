[package]
name = "keybswitch"
version = "0.1.0"
edition = "2021"
publish = false

[dependencies]
libc = "*"
serde = { version = "*", features = ["derive"] }
serde_yaml = "*"
udev = "*"
xdg = "*"
