[package]
name = "package_id"
version = "0.1.0"
edition = "2021"
publish = false

[dependencies]
semver = "1"
rustc-serialize = "0.3"

[dev-dependencies]
regex = "1"
