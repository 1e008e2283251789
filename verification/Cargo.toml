[package]
name = "chromalisp"
version = "0.1.0"
edition = "2021"
publish = false

[dependencies]
xrust = "=0.8.0"

[dev-dependencies]
nom = "=7.1.3"
