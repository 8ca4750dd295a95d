[package]
name = "huge_allocator"
version = "0.1.0"
edition = "2021"
publish = false

[dependencies]
lazy_static = "1"
nix = { version = "0.25", default-features = false, features = ["feature", "mman"] }
