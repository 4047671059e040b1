[package]
name = "fdt_rs"
version = "0.1.0"
edition = "2021"
publish = false

[dependencies]
endian-type-rs = "*"
memoffset = "*"
num-traits = { version = "*", default-features = false }
static_assertions = "*"
unsafe_unwrap = "*"
