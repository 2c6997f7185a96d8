[package]
name = "text_system"
version = "0.1.0"
edition = "2021"
publish = false

[dependencies]
font-kit = "*"
harfbuzz_rs = "*"
pathfinder_geometry = "*"
smallvec = "*"
parking_lot = "*"
anyhow = "*"
log = "*"
