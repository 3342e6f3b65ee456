[package]
name = "buddhabrot"
version = "0.1.0"
edition = "2021"
publish = false

[dependencies]
byte-slice-cast = "1"
clap = { version = "3", features = ["derive"] }
crossbeam-channel = "0.5"
num_cpus = "1"
png = "0.17"
