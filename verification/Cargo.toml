[package]
name = "mmtk_pypy"
version = "0.1.0"
edition = "2021"
publish = false

[dependencies]
mmtk = "*"
libc = "*"
log = "*"
lazy_static = "*"
once_cell = "*"
