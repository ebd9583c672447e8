[package]
name = "collada"
version = "0.1.0"
edition = "2021"
publish = false

[dependencies]
xmltree = "=0.12.0"
rustc_apfloat = "=0.2.3"
const_soft_float = "*"
