[package]
name = "rusticsom"
version = "0.1.0"
edition = "2021"
publish = false

[dependencies]
ndarray = { version = "0.13", features = ["serde"] }
rand = "0.7"
rand_distr = "0.2"
serde = { version = "1", features = ["derive"] }
serde_json = "1"
