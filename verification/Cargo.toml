[package]
name = "color_harmony"
version = "0.1.0"
edition = "2021"
publish = false

[dependencies]
rand = "0.9"
ratatui = "0.29"
crossterm = "0.28"
palette = { version = "0.7", default-features = false, features = ["std"] }
strum = "0.26"
strum_macros = "0.26"
arboard = { version = "3", default-features = false }
