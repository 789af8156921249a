[package]
name = "llook"
version = "0.1.0"
edition = "2021"
publish = false

[dependencies]
either = "=1.19.0"
inkwell = { version = "=0.11.0", features = ["llvm14-0-force-dynamic"] }
regex = "=1.13.1"
