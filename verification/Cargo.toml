[package]
name = "micro1_asm"
version = "0.1.0"
edition = "2021"
publish = false

[dependencies]
ariadne = "0.1"
chumsky = "0.8"
clap = "2"
logos = "0.12"
