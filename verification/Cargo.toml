[package]
name = "xml_requirements"
version = "0.1.0"
edition = "2021"
publish = false

[dependencies]
pico-args = "0.3"
roxmltree = "0.13"
serde = { version = "1", features = ["derive"] }
structopt = "0.3"
toml = "0.5"
