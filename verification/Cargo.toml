[package]
name = "taproot_vanity"
version = "0.1.0"
edition = "2021"
publish = false

[dependencies]
bitcoin = { version = "0.32", features = ["rand-std"] }
rand = "0.8"
crossbeam = "0.8"
clap = { version = "4", features = ["derive"] }
ctrlc = "3"
indicatif = "0.17"
num_cpus = "1"
chrono = "0.4"
