[package]
name = "learn_os"
version = "0.1.0"
edition = "2021"
publish = false

[dependencies]
log = "=0.4.35"
riscv = "=0.10.1"
