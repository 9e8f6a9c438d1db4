[package]
name = "media_cruncher"
version = "0.1.0"
edition = "2021"
publish = false

[dependencies]
clap = { version = "4", features = ["derive"] }
indicatif = "0.17"
rayon = "1"
tempfile = "3"
walkdir = "2"
