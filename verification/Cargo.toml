[package]
name = "mhwho"
version = "0.1.0"
edition = "2021"
publish = false

[dependencies]
chrono = "0.2"
csv = "0.15"
docopt = "0.7"
rustc-serialize = "0.3"
xml_writer = "*"
