[package]
name = "minigrep"
version = "0.1.0"
edition = "2021"
publish = false

[dependencies]
aho-corasick = "1"
is-terminal = "0.4"
rayon = "1"
