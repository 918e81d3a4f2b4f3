[package]
name = "beatmap_cleaner"
version = "0.1.0"
edition = "2021"
publish = false

[dependencies]
ahash = "0.8"
walkdir = "2"
rayon = "1"
anyhow = "1"
