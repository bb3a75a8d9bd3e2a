[package]
name = "rhai_autodocs"
version = "0.1.0"
edition = "2021"
publish = false

[dependencies]
rhai = { version = "*", features = ["metadata"] }
serde = { version = "*", features = ["derive"] }
serde_json = { version = "*", features = ["preserve_order"] }
handlebars = "*"
