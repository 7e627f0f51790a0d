[package]
name = "brain_massage"
version = "0.1.0"
edition = "2021"
publish = false

[dependencies]
regex = "1"
anyhow = "1"
clap = { version = "4", features = ["derive"] }
inkwell = { version = "*", features = ["llvm20-1"] }
