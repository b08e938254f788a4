[package]
name = "rrain"
version = "0.1.0"
edition = "2021"
publish = false
