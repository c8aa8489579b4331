[package]
name = "xlsx2csv"
version = "0.1.0"
edition = "2021"
publish = false

[dependencies]
calamine = "0.18"
csv = "1"
regex = "1"
structopt = "0.3"
