[package]
name = "blog"
version = "0.1.0"
edition = "2021"
publish = false

[dependencies]
pulldown-cmark = "*"
handlebars = "*"
tide = "*"
async-std = { version = "*", features = ["attributes"] }
tide-tracing = "*"
tracing = "*"
tracing-subscriber = { version = "*", features = ["env-filter"] }
