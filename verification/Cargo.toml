[package]
name = "squarer"
version = "0.1.0"
edition = "2021"
publish = false

[dependencies]
data-url = "*"
image = { version = "*", default-features = false, features = ["png", "jpeg"] }
thiserror = "*"
