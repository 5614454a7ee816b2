[package]
name = "magnetite"
version = "0.1.0"
edition = "2021"
publish = false

[dependencies]
argmin = "=0.11.0"
argmin-math = { version = "=0.5.1", features = ["vec"] }
clap = { version = "=4.6.7", features = ["derive"] }
indicatif = "=0.18.6"
json = "=0.12.4"
nalgebra = "=0.35.0"
roxmltree = "=0.21.1"
