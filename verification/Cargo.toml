[package]
name = "canonical_build"
version = "0.1.0"
edition = "2021"
publish = false

[dependencies]
anyhow = "=1.0.104"
cairo-lang-compiler = "=2.21.0"
indicatif = "=0.17.11"
tracing = "=0.1.44"
url = "=2.5.8"

[dev-dependencies]
data-encoding = "=2.11.1"
