[package]
name = "babomemo"
version = "0.1.0"
edition = "2021"
publish = false

[dependencies]
arboard = { version = "3", default-features = false }
atomic-write-file = "0.2"
crossterm = "0.28"
directories = "6"
fluent-bundle = "0.15"
fluent-langneg = "0.13"
ratatui = "0.29"
rust-embed = "8"
sys-locale = "0.3"
unic-langid = "0.9"
unicode-segmentation = "1"
