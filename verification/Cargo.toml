[package]
name = "pkgcheck"
version = "0.1.0"
edition = "2021"
publish = false

[dependencies]
serde_json = "1"
toml = "0.8"
regex = "1"
ureq = { version = "2", features = ["json"] }
crossterm = "0.27"
tabled = "0.15"
