[package]
name = "twixter"
version = "0.1.0"
edition = "2021"
publish = false

[dependencies]
chrono = "0.4"
clap = "2"
dirs = "2"
reqwest = "0.9"
rust-ini = "0.13"
strfmt = "0.1"
