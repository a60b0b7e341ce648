[package]
name = "rvn"
version = "0.1.0"
edition = "2021"
publish = false

[dependencies]
ratatui = "*"
crossterm = "*"
walkdir = "*"
color-eyre = "*"
