[package]
name = "config_parser"
version = "0.1.0"
edition = "2021"
publish = false

[dependencies]
miette = "=7.6.0"
thiserror = "=2.0.21"
syn = "=3.0.9"
quote = "=1.0.47"
proc-macro2 = "=1.0.107"
kdl = "*"
