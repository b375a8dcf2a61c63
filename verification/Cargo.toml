[package]
name = "osv2osv"
version = "0.1.0"
edition = "2021"
publish = false

[dependencies]
chrono = "0.4"
csv = "1"
regex = "1"
xml-rs = "0.8"
rust-crypto = "0.2"
structopt = "0.3"
