[package]
name = "link_archive"
version = "0.1.0"
edition = "2021"
publish = false

[dependencies]
regex = "1"
slugify = "0.1"
time = "0.1"
rayon = "1"
url = "*"
pb = "*"
readability = "*"
keyring = "*"
