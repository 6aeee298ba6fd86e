[package]
name = "stark_lookup"
version = "0.1.0"
edition = "2021"
publish = false

[dependencies]
p3-field = "*"
p3-baby-bear = "*"
p3-util = "*"
