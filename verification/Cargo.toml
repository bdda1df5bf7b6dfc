[package]
name = "confbk"
version = "0.1.0"
edition = "2021"
publish = false

[dependencies]
duct = "0.13"
fs_extra = "1"
structopt = "0.3"
