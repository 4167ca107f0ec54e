[package]
name = "libspa"
version = "0.1.0"
edition = "2021"
publish = false

[dependencies]
nom = "7"
cookie-factory = "0.3"
bitflags = "2"
convert_case = "0.6"
nix = { version = "0.27", features = ["fs"] }
