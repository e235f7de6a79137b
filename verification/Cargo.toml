[package]
name = "laat"
version = "0.1.0"
edition = "2021"
publish = false

[dependencies]
armake2 = "*"
async-trait = "*"
futures-util = "*"
handlebars = "*"
ogg_metadata = "*"
serde = { version = "*", features = ["derive"] }
structopt = "*"
tokio = { version = "*", features = ["full"] }
toml = "*"
tracing = "*"
tracing-subscriber = { version = "*", features = ["env-filter"] }
walkdir = "*"
