[package]
name = "gym_chess"
version = "0.1.0"
edition = "2021"

[dependencies]
pyo3 = "0.22"
