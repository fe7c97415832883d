[package]
name = "llvm2yul"
version = "0.1.0"
edition = "2021"
publish = false

[dependencies]
primitive-types = "*"
anyhow = "1"
clap = { version = "4", features = ["derive"] }
llvm-ir = { version = "*", features = ["llvm-17"] }
llvm-ir-analysis = { version = "*", features = ["llvm-17"] }

[dev-dependencies]
regex = "1"
