[package]
name = "gleam_repl"
version = "0.1.0"
edition = "2021"
publish = false

[dependencies]
camino = "1"
dirs = "*"
regex = "1"
rustyline = "*"
tempfile = "3"
