[package]
name = "template_renderer"
version = "0.1.0"
edition = "2021"
publish = false

[dependencies]
clap = { version = "4", features = ["derive"] }
cli-table = "*"
dialoguer = "*"
directories = "*"
handlebars = "*"
indicatif = "*"
jsonschema = { version = "*", default-features = false }
serde = { version = "1", features = ["derive"] }
serde_json = "1"
toml = "*"
