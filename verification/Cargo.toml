[package]
name = "codecave"
version = "0.1.0"
edition = "2021"
publish = false

[dependencies]
anyhow = "1"
argh = "0.1"
console = "0.15"
goblin = "0.9"
indicatif = "0.17"
