[package]
name = "swift2vue"
version = "0.1.0"
edition = "2021"
publish = false

[dependencies]
id_tree = "=1.8.0"
regex = "=1.13.1"
handlebars = "=6.4.4"
serde_json = "=1.0.154"
xmltree = "=0.12.0"
tree-sitter = "=0.27.1"
tree-sitter-swift = "=0.7.4"
colored = "=3.1.1"
anyhow = "=1.0.104"
swc_bundler = "=57.0.0"
swc_common = "=26.0.0"
swc_ecma_ast = "=29.0.2"
swc_ecma_codegen = "=32.0.5"
swc_ecma_loader = { version = "=27.0.0", features = ["cache", "node"] }
swc_ecma_parser = "=46.1.2"
