[package]
name = "rtx_shell"
version = "0.1.0"
edition = "2021"
publish = false

[dependencies]
shell-escape = "0.1"
