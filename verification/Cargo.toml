[package]
name = "divitext"
version = "0.1.0"
edition = "2021"
publish = false

[dependencies]
ratatui = "*"
crossterm = "*"
clap = "*"
log = "*"
fern = "*"
chrono = "*"
