[package]
name = "cstr_core"
version = "0.1.0"
edition = "2021"
publish = false

[dependencies]
memchr = "*"
cty = "*"
