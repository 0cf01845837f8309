[package]
name = "schema_equiv"
version = "0.1.0"
edition = "2021"
publish = false

[dependencies]
itertools = "*"
cedar-policy-core = "*"
cedar-policy = "*"
serde_json = "*"
libfuzzer-sys = "*"
log = "*"
