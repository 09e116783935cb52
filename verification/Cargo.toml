[package]
name = "webp_anim"
version = "0.1.0"
edition = "2021"
publish = false

[dependencies]
image = "=0.25.10"
libwebp-sys = "=0.14.4"

[dev-dependencies]
webp-animation = "*"
