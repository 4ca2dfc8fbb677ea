[package]
name = "holographic_pass"
version = "0.1.0"
edition = "2021"
publish = false

[dependencies]
num-bigint = "0.4"
sha2 = "=0.10.9"
hex = "=0.4.3"
rand = "=0.8.8"
