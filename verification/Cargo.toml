[package]
name = "ramp_ball"
version = "0.1.0"
edition = "2021"
publish = false

[dependencies]
lyon = "*"
