[package]
name = "espr"
version = "0.1.0"
edition = "2021"
publish = false

[dependencies]
serde = "1"
proc-macro2 = "1"
quote = "1"
Inflector = "0.11"
