[package]
name = "rusty_rogue"
version = "0.1.0"
edition = "2021"
publish = false

[dependencies]
rand = "0.7"
tcod = "0.15"
