[package]
name = "reproto"
version = "0.1.0"
edition = "2021"
publish = false

[dependencies]
ring = "*"
pulldown-cmark = "*"
serde = "*"
serde_derive = "*"
serde_json = "*"
toml = "*"
clap = "*"
