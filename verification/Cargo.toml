[package]
name = "bao"
version = "0.1.0"
edition = "2021"
publish = false

[dependencies]
rand = "=0.8.8"
radiate = "=1.1.59"
rustneat = "=0.2.1"
