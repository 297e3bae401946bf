[package]
name = "tic_tac_toe_advanced"
version = "0.1.0"
edition = "2021"
publish = false

[dependencies]
crossterm = "*"
