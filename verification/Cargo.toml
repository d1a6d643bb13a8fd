[package]
name = "line-discipline"
version = "2.0.0"
edition = "2021"
publish = false

[dependencies]
rkyv = "0.8"
