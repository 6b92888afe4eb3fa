[package]
name = "papyrus"
version = "0.1.0"
edition = "2021"
publish = false

[dependencies]
indexmap = "=1.9.3"
libmdbx = "=0.3.5"
serde = { version = "=1.0.229", features = ["derive"] }
serde_json = "=1.0.154"
starknet_api = "=0.3.0"
tracing = "0.1"

# starknet_api 0.3.0 compiles against release 2.1.0 of the Cairo compiler only, and that release
# asks for its own parts by a caret range, so every part is held at 2.1.0 here.
cairo-lang-casm = "=2.1.0"
cairo-lang-compiler = "=2.1.0"
cairo-lang-debug = "=2.1.0"
cairo-lang-defs = "=2.1.0"
cairo-lang-diagnostics = "=2.1.0"
cairo-lang-eq-solver = "=2.1.0"
cairo-lang-filesystem = "=2.1.0"
cairo-lang-lowering = "=2.1.0"
cairo-lang-parser = "=2.1.0"
cairo-lang-plugins = "=2.1.0"
cairo-lang-proc-macros = "=2.1.0"
cairo-lang-project = "=2.1.0"
cairo-lang-semantic = "=2.1.0"
cairo-lang-sierra = "=2.1.0"
cairo-lang-sierra-ap-change = "=2.1.0"
cairo-lang-sierra-gas = "=2.1.0"
cairo-lang-sierra-generator = "=2.1.0"
cairo-lang-sierra-to-casm = "=2.1.0"
cairo-lang-sierra-type-size = "=2.1.0"
cairo-lang-starknet = "=2.1.0"
cairo-lang-syntax = "=2.1.0"
cairo-lang-syntax-codegen = "=2.1.0"
cairo-lang-utils = "=2.1.0"
