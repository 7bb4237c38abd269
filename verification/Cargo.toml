[package]
name = "orbit_annealer"
version = "0.1.0"
edition = "2021"

[dependencies]
rand = "*"
