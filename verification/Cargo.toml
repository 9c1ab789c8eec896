[package]
name = "ghost_pool"
version = "0.1.0"
edition = "2021"
publish = false

[dependencies]
anchor-lang = { version = "=0.32.2", features = ["init-if-needed"] }
anchor-spl = { version = "=0.32.2", default-features = false, features = ["token"] }
arcium-anchor = "=0.5.4"
arcium-client = { version = "=0.5.4", default-features = false }
arcium-macros = "=0.5.4"
