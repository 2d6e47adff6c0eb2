[package]
name = "youki"
version = "0.1.0"
edition = "2021"
publish = false

[dependencies]
oci-spec = "0.5"
procfs = "0.12"
nix = "0.23"
prctl = "1"
