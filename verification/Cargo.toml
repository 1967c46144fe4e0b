[package]
name = "matroska"
version = "0.1.0"
edition = "2021"
publish = false

[dependencies]
cookie-factory = "0.3"
crc = "3"
av-data = "*"
av-format = "*"

[dev-dependencies]
quickcheck = "1"
