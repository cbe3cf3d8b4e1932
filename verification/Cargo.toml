[package]
name = "content_vtable"
version = "0.1.0"
edition = "2021"
publish = false

[dependencies]
ecow = "0.2"
typst-utils = "0.14"
