[package]
name = "mkpasswd"
version = "0.1.0"
edition = "2021"
publish = false

[dependencies]
rand_core = "0.5"
rand_os = "0.2"
