[package]
name = "demoparser"
version = "0.1.0"
edition = "2021"
publish = false

[dependencies]
bitter = "=0.6.2"
bit_reverse = "=0.1.8"
rayon = "=1.12.0"
memmap2 = "=0.9.12"
snap = "=1.1.2"
ahash = "0.8"
