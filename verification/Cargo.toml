[package]
name = "dnsqry"
version = "0.1.0"
edition = "2021"
publish = false

[dependencies]
clap = "4"
trust-dns-resolver = "0.23"
