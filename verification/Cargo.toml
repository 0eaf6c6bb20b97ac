[package]
name = "mdbook_svgbob"
version = "0.1.0"
edition = "2021"
publish = false

[dependencies]
mdbook = { version = "=0.4.52", default-features = false }
pulldown-cmark = "=0.9.6"
pulldown-cmark-to-cmark = "=10.0.4"
svgbob = "=0.6.7"
toml = "=0.5.11"
