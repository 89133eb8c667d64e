[package]
name = "rv32emu"
version = "0.1.0"
edition = "2021"
publish = false

[dependencies]
goblin = "*"
syscalls = { version = "*", default-features = false, features = ["std", "riscv32"] }
