[package]
name = "tiny_update_check"
version = "0.1.0"
edition = "2021"
publish = false

[dependencies]
dirs = "=7.0.0"
ureq = "=3.4.2"
