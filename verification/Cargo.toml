[package]
name = "comm_harness"
version = "0.1.0"
edition = "2021"
publish = false

[dependencies]
mpi = "*"
rand = "0.8"
