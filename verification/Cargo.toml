[package]
name = "mellotron"
version = "0.1.0"
edition = "2021"
publish = false

[dependencies]
lv2 = "*"
wav = "*"
wmidi = "*"
regex = "*"
