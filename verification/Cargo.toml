[package]
name = "rahmen"
version = "0.1.0"
edition = "2021"
publish = false

[dependencies]
convert_case = "0.4"
regex = "1"
itertools = "0.10"
image = "0.23"
mozjpeg = "0.9"
pyo3 = "0.20"
rexiv2 = "0.9"
