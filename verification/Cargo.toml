[package]
name = "bb_cards"
version = "0.1.0"
edition = "2021"
publish = false

[dependencies]
base64 = "0.13"
postgres = "*"
r2d2_postgres = "*"
rand = "0.8"
