[package]
name = "rootcause"
version = "0.1.0"
edition = "2021"
publish = false

[dependencies]
indexmap = "=2.14.2"
rustc-hash = "=2.1.3"
regex = "=1.13.1"
backtrace = "=0.3.77"
