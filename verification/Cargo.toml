[package]
name = "macro_circom"
version = "0.1.0"
edition = "2021"
publish = false

[dependencies]
anyhow = "=1.0.104"
clap = "=2.34.0"
handlebars = "=4.5.0"
heck = "=0.4.1"
serde_json = "=1.0.154"
