[package]
name = "flang"
version = "0.1.0"
edition = "2021"
publish = false

[dependencies]
ariadne = "=0.6.0"
codespan-reporting = "=0.13.1"
inkwell = { version = "=0.11.0", features = ["llvm14-0-prefer-dynamic"] }
