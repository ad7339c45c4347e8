[package]
name = "buf"
version = "0.1.0"
edition = "2021"
publish = false

[dependencies]
containers = "=0.9.13"
either = "=1.19.0"
loca = "=0.7.4"
