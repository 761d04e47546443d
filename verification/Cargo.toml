[package]
name = "ldk_facade"
version = "0.1.0"
edition = "2021"
publish = false

[dependencies]
ldk-node = "0.2"
