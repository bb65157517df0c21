[package]
name = "damage_calc"
version = "0.1.0"
edition = "2021"
publish = false

[dependencies]
itertools = "*"

[dev-dependencies]
ordered-float = "*"
