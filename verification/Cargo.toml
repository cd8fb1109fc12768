[package]
name = "kernel_harness"
version = "0.1.0"
edition = "2021"
publish = false

[dependencies]
quickcheck = "1"
libfuzzer-sys = "0.4"
