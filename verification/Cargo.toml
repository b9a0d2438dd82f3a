[package]
name = "usi_hand_parser"
version = "0.1.0"
edition = "2021"
publish = false

[dependencies]
shogi_core = "*"
