[package]
name = "rewordle"
version = "0.1.0"
edition = "2021"
publish = false

[dependencies]
regex = "*"
terminal_style = "*"
crossterm = "*"
