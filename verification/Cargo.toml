[package]
name = "usync"
version = "0.2.0"
edition = "2021"
publish = false

[dependencies]
clap = { version = "4", features = ["derive"] }
colored = "2"
digest = "0.10"
glob = "0.3"
indicatif = "0.17"
md5 = "0.7"
rayon = "1"
sha1 = "0.10"
sha2 = "0.10"
tempfile = "3"
url = "2"
