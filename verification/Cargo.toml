[package]
name = "tfxed_core"
version = "0.1.0"
edition = "2021"
publish = false

[dependencies]
ansi-to-tui = "*"
base64 = "*"
miniz_oxide = "*"
percent-encoding = "*"
ratatui = "*"
tachyonfx = "*"
