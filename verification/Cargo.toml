[package]
name = "lazyssh"
version = "0.1.0"
edition = "2021"
publish = false

[dependencies]
arboard = "*"
color-eyre = "*"
dirs = "*"
ratatui = "*"
trash = "*"
