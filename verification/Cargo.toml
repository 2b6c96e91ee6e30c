[package]
name = "grammar_coverage"
version = "0.1.0"
edition = "2021"
publish = false

[dependencies]
proc-macro2 = "*"
walkdir = "*"
crossbeam = "*"
rayon = "*"
structopt = "*"
serde = { version = "*", features = ["derive"] }
toml = "*"
