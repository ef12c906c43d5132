[package]
name = "tally"
version = "0.1.0"
edition = "2021"
publish = false

[dependencies]
sqlite = "*"
clap = "*"
dirs = "*"
prettytable-rs = "*"

[dev-dependencies]
tempfile = "*"
