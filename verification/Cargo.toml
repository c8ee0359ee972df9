[package]
name = "oxi"
version = "0.0.1"
edition = "2021"
publish = false

[dependencies]
bufstream = "*"
oxidant = "*"
