[package]
name = "clovalink"
version = "0.1.0"
edition = "2021"
publish = false

[dependencies]
argon2 = "*"
blake3 = "*"
calamine = "*"
cron = "*"
nanoid = "*"
pdf-extract = "*"
regex = "*"
sha2 = "*"
zip = "*"
