[package]
name = "b_cleaner"
version = "0.1.0"
edition = "2021"

[dependencies]
unidecode = "*"
htmlescape = "*"
rust-stemmers = "*"
