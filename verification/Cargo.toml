[package]
name = "bae146_tweaks"
version = "0.1.0"
edition = "2021"
publish = false

[dependencies]
almost = "*"
thiserror = "*"
xplm = "*"
