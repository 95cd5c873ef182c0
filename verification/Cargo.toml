[package]
name = "miroir"
version = "0.1.0"
edition = "2021"
publish = false

[dependencies]
arrayvec = "0.7"
either = "1"
nalgebra = "=0.32.6"
rand = "=0.8.8"
serde_json = "=1.0.154"
