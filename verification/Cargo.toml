[package]
name = "cubecl-runtime"
version = "0.1.0"
edition = "2021"
publish = false

[dependencies]
cubecl-common = "0.4.0"
