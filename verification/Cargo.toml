[package]
name = "hill_climb"
version = "0.1.0"
edition = "2021"
publish = false
