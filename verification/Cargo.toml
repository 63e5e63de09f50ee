[package]
name = "type_checker"
version = "0.1.0"
edition = "2021"
publish = false

[dependencies]
indexmap = "2"
bigdecimal = "0.4"
