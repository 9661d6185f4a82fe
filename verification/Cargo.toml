[package]
name = "proof_reader"
version = "0.1.0"
edition = "2021"
publish = false

[dependencies]
clap = "2"
colored = "2"
rayon = "1"
scraper = "*"
walkdir = "2"
