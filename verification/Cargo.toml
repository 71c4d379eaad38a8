[package]
name = "ale_core"
version = "0.1.0"
edition = "2021"
publish = false

[dependencies]
anyhow = "*"
cgmath = "*"
fbxcel-dom = "*"
gl = "*"
image = "*"
log = "*"
