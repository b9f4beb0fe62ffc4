[package]
name = "git-rename-stash"
version = "0.1.0"
edition = "2021"
publish = false

[dependencies]
git2 = { version = "0.20", default-features = false }

[dev-dependencies]
tempfile = "3"
