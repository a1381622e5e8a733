[package]
name = "tracing_actix"
version = "0.1.0"
edition = "2021"
publish = false

[dependencies]
actix = "*"
tracing = "*"
pin-project-lite = "*"
