[package]
name = "binder_rust"
version = "0.1.0"
edition = "2021"
publish = false

[dependencies]
byteorder = "1"
log = "0.4"
nix = "0.23"
proc-macro2 = "1"
quote = "1"
syn = "1"
thiserror = "1"
