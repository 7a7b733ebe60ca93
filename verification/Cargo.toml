[package]
name = "mc_client"
version = "0.1.0"
edition = "2021"
publish = false

[dependencies]
byteorder = "1"
crossbeam-channel = "*"
err-derive = "*"
flate2 = "1"
mc-varint = "*"
sha1 = "*"
