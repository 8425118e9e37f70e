[package]
name = "wit_toolkit"
version = "0.1.0"
edition = "2021"
publish = false

[dependencies]
wit-schema-version = "*"
wasmparser = "*"
wasmprinter = "*"
wast = "*"

[dev-dependencies]
leb128 = "*"
