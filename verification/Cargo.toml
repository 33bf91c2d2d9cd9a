[package]
name = "gmock_sed"
version = "0.1.0"
edition = "2021"
publish = false

[dependencies]
colored = "*"
rayon = "*"
structopt = "*"
walkdir = "*"
