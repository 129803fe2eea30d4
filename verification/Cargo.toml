[package]
name = "rapt"
version = "0.1.0"
edition = "2021"
publish = false

[dependencies]
avr-std-stub = "1.0.3"
nb = "1.1.0"
ufmt = "0.2.0"
