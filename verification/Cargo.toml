[package]
name = "nl80211"
version = "0.1.0"
edition = "2021"
publish = false

[dependencies]
neli = "0.6"
