[package]
name = "recursive_aggregation"
version = "0.1.0"
edition = "2021"
publish = false

[dependencies]
bellman_ce = "*"
