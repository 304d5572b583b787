[package]
name = "fsva"
version = "0.1.0"
edition = "2021"
publish = false

[dependencies]
chrono = "0.4"
clap = "2.33"
flate2 = "1.0"
serde_yaml = "0.8"
tar = "0.4"
