[package]
name = "template_lowering"
version = "0.1.0"
edition = "2021"
publish = false

[dependencies]
proc-macro2 = "*"
proc-macro2-diagnostics = "*"
quote = "*"
rstml = "*"
syn = "*"
