[package]
name = "ada_codegen"
version = "0.1.0"
edition = "2021"
publish = false

[dependencies]
llvm-alt = "=0.5.0"
llvm-sys = "=0.4.0"
cbox = "=0.3.0"
