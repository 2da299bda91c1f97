[package]
name = "moq-vaapi"
version = "0.1.0"
edition = "2021"
publish = false

[dependencies]
anyhow = "1"
bindgen = "0.72"
libloading = "0.8"
log = "0.4"
