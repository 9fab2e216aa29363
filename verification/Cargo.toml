[package]
name = "vilya"
version = "0.1.0"
edition = "2021"
publish = false

[dependencies]
crossbeam-queue = "0.3"
io-uring = "0.6"
parking_lot = "0.12"
sc = "0.2"
