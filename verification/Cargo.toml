[package]
name = "renderide_prep"
version = "0.1.0"
edition = "2021"
publish = false

[dependencies]
hashbrown = "0.15"
ahash = "0.8"
glam = "0.29"
parking_lot = "0.12"
rayon = "1"
