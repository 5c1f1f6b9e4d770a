[package]
name = "fonterator"
version = "0.1.0"
edition = "2021"
publish = false

[dependencies]
footile = "=0.7.0"
pointy = "=0.3.0"
rustybuzz = "=0.20.1"
