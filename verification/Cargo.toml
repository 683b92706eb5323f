[package]
name = "sysdemo"
version = "0.1.0"
edition = "2021"
publish = false

[dependencies]
byteorder = "1"
chrono = "0.4"
clap = { version = "4", features = ["derive"] }
crossbeam = "0.8"
libc = "0.2"
rand = "0.8"
regex = "1"
reqwest = { version = "*", default-features = false, features = ["blocking"] }
smoltcp = "0.11"
trust-dns-client = "*"
url = "2"
