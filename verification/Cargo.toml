[package]
name = "tftp"
version = "0.1.0"
edition = "2021"
publish = false

[dependencies]
chrono = "0.4"
getopts = "0.2"
thiserror = "1"
