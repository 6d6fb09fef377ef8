[package]
name = "netfolder"
version = "0.1.0"
edition = "2021"
publish = false

[dependencies]
byteorder = "1"
clap = "=3.0.0-beta.2"
colour = "*"
indicatif = "0.15"
