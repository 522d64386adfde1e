[package]
name = "expecters"
version = "0.1.0"
edition = "2021"
publish = false

[dependencies]
pin-project-lite = "0.2"
futures = "0.3"
