[package]
name = "boilerplato"
version = "0.1.0"
edition = "2021"
publish = false

[dependencies]
clap = "*"
colored = "*"
gitignore = "*"
handlebars = "*"
pathdiff = "*"
reqwest = { version = "*", default-features = false, features = ["blocking", "json"] }
semver = "*"
serde_json = "*"
serde_yaml = "*"
url = "*"
uuid = { version = "*", features = ["v4"] }
