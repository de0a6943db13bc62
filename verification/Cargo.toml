[package]
name = "load_painter"
version = "0.1.0"
edition = "2021"
publish = false

[dependencies]
dotenv = "0.15"
envy = "0.4"
failure = "0.1"
fehler = "1"
image = "0.23"
mysql = "20"
serde = "1"
serde_derive = "1"
