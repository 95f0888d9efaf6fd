[package]
name = "kaleipl"
version = "0.1.0"
edition = "2021"
publish = false

[dependencies]
inkwell = { version = "=0.11.0", features = ["llvm18-1"] }
llvm-sys = "=181.3.1"
owo-colors = "=4.4.0"
