[package]
name = "diffscreen"
version = "0.1.0"
edition = "2021"
publish = false

[dependencies]
zstd = "*"
enigo = "*"
scrap = "*"
fltk = "*"
thiserror = "*"
