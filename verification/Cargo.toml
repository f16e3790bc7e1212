[package]
name = "kayton_vm"
version = "0.1.0"
edition = "2021"
publish = false

[dependencies]
bumpalo = "3"
libc = "0.2"
