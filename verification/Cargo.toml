[package]
name = "synth"
version = "0.1.0"
edition = "2021"
publish = false

[dependencies]
libpatron = "=0.17.3"
easy-smt = "=0.2.8"
num-bigint = "=0.4.8"
num-traits = "=0.2.19"
serde = { version = "=1.0.229", features = ["derive"] }
serde_json = { version = "=1.0.154", features = ["arbitrary_precision"] }
clap = { version = "=4.6.7", features = ["derive"] }
memmap2 = "=0.9.12"
