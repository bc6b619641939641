[package]
name = "openvcs"
version = "0.1.0"
edition = "2021"
publish = false

[dependencies]
git2 = { version = "*", default-features = false, features = ["vendored-libgit2"] }
time = { version = "*", default-features = false, features = ["std", "parsing", "formatting"] }
serde = { version = "*", features = ["derive"] }
serde_json = "*"
toml = "*"
