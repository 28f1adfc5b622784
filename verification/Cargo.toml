[package]
name = "blust"
version = "0.1.0"
edition = "2021"
publish = false

[dependencies]
pulldown-cmark = "0.9"
handlebars = "*"
serde_json = "*"
chrono = "*"
toml_edit = "0.19"
glob = "*"
