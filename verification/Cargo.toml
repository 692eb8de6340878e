[package]
name = "stateful"
version = "0.1.0"
edition = "2021"
publish = false

[dependencies]
petgraph = "*"
aster = "0.41"
syntex_syntax = "0.58"
