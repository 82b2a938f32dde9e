[package]
name = "rconc"
version = "0.1.0"
edition = "2021"
publish = false

[dependencies]
rust-ini = "*"
itertools = "*"
clap = "*"
directories = "*"
async-std = "*"
rcon = { version = "*", features = ["rt-async-std"] }
