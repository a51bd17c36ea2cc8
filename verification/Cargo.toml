[package]
name = "wasp"
version = "0.1.0"
edition = "2021"
publish = false

[dependencies]
wasmly = "=0.2.0"
clap = "=2.34.0"
walkdir = "=2.5.0"
