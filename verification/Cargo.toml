[package]
name = "hektor"
version = "0.1.0"
edition = "2021"
publish = false

[dependencies]
crossterm = "0.25"
structopt = "0.3"
