[package]
name = "git_credentials"
version = "0.1.0"
edition = "2021"
publish = false

[dependencies]
git-prompt = "=0.3.3"
