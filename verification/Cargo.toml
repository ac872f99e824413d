[package]
name = "simple_itoa"
version = "0.1.0"
edition = "2021"
publish = false

[dependencies]
anyhow = "1"
clap = "2"
rand = "0.7"
rand_xorshift = "0.2"
