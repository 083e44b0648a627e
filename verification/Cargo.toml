[package]
name = "rustdds"
version = "0.1.0"
edition = "2021"
publish = false

[dependencies]
log = "0.4"
mio = "0.6"
mio-extras = "2.0"
byteorder = "1"
