[package]
name = "cairo_toolkit"
version = "0.1.0"
edition = "2021"
publish = false

[dependencies]
anyhow = "=1.0.104"
cairo-lang-casm = "=2.21.0"
cairo-lang-compiler = "=2.21.0"
cairo-lang-debug = "=2.21.0"
cairo-lang-defs = "=2.21.0"
cairo-lang-diagnostics = "=2.21.0"
cairo-lang-filesystem = "=2.21.0"
cairo-lang-parser = "=2.21.0"
cairo-lang-project = "=2.21.0"
cairo-lang-sierra = "=2.21.0"
cairo-lang-sierra-generator = "=2.21.0"
cairo-lang-sierra-to-casm = "=2.21.0"
cairo-lang-sierra-type-size = "=2.21.0"
cairo-lang-syntax = "=2.21.0"
cairo-lang-test-utils = "=2.21.0"
clap = { version = "=4.6.7", features = ["derive"] }
itertools = "=0.15.0"
once_cell = "=1.21.4"
salsa = "=0.28.5"
scarb-metadata = "=1.15.1"
serde_json = "=1.0.154"
smol_str = "=0.3.7"
tracing = "=0.1.44"
