[package]
name = "bump_arena"
version = "0.1.0"
edition = "2021"
publish = false

[dependencies]
futures = "0.3"
wgpu = { version = "0.20", features = ["spirv"] }
spirv-builder = { version = "0.9", default-features = false, features = ["use-installed-tools"] }
