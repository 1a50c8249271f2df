[package]
name = "join_lecture"
version = "0.1.0"
edition = "2021"
publish = false

[dependencies]
json = "0.12"
chrono = "0.4"
structopt = "0.3"
