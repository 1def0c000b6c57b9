[package]
name = "knope"
version = "0.1.0"
edition = "2021"
publish = false

[dependencies]
git-conventional = "*"
changesets = "*"
serde = { version = "*", features = ["derive"] }
toml = "*"
toml_edit = "*"
thiserror = "*"
