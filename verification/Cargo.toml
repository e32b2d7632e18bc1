[package]
name = "limits-rs"
version = "0.2.0"
edition = "2021"

[dependencies]
thiserror = "1.0"
