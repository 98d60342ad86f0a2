[package]
name = "dnsnet_core"
version = "0.1.0"
edition = "2021"
publish = false

[dependencies]
socket2 = "*"
polling = "*"
libc = "*"

[dev-dependencies]
etherparse = "*"
simple-dns = "*"
