[package]
name = "corroded_dav"
version = "0.1.0"
edition = "2021"
publish = false

[dependencies]
url = "*"
chrono = "*"
dateparser = "*"
minidom = "*"
netrc = "*"
rustydav = "*"
rustyline = "*"
