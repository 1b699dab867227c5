[package]
name = "multiband_compressor"
version = "0.1.0"
edition = "2021"
publish = false

[dependencies]
atomic_float = { version = "0.1", default-features = false }
