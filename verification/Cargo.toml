[package]
name = "mdbook_utils"
version = "0.1.0"
edition = "2021"
publish = false

[dependencies]
anyhow = "1"
cargo_toml = "*"
clap = { version = "4", features = ["derive"] }
console = "*"
dialoguer = "*"
dotenvy = "0.15"
envy = "0.4"
once_cell = "1"
pulldown-cmark = { version = "0.13", default-features = false }
quick-xml = "*"
rand = "0.9"
regex = "1"
serde = { version = "1", features = ["derive"] }
toml = "*"
tracing = "0.1"
tracing-subscriber = "0.3"
url = "2"
