[package]
name = "level_codec"
version = "0.1.0"
edition = "2021"
publish = false

[dependencies]
anyhow = "1"
image = "0.23"
imagequant = "3"
native-dialog = "0.5"
