[package]
name = "envlang"
version = "0.5.11"
edition = "2021"
publish = false

[dependencies]
unicode-segmentation = "1"
