[package]
name = "greek-wordle"
version = "0.1.0"
edition = "2021"
publish = false

[dependencies]
unicode-normalization = "0.1"
ratatui = "0.29"
crossterm = "0.28"
