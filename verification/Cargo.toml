[package]
name = "photon_sniffer"
version = "0.1.0"
edition = "2021"
publish = false

[dependencies]
photon_decode = "*"
pnet = "*"
