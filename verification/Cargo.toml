[package]
name = "correttore_date"
version = "0.1.0"
edition = "2021"
publish = false

[dependencies]
serde_json = "*"
kamadak-exif = "*"
walkdir = "*"
rayon = "*"
