[package]
name = "lcr_sim"
version = "0.1.0"
edition = "2021"
publish = false

[dependencies]
clap = { version = "4", features = ["derive"] }
indicatif = { version = "0.17", features = ["rayon"] }
rand = "0.9"
rayon = "1"
