[package]
name = "rpm"
version = "1.0.0"
edition = "2021"
publish = false

[dependencies]
ansi_term = "*"
termsize = "*"
users = "*"
