[package]
name = "cutsites"
version = "0.1.0"
edition = "2021"
publish = false

[dependencies]
bio-types = "*"
bio = "*"
clap = "2"
rayon = "*"
rust-htslib = "*"
