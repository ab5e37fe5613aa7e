[package]
name = "module_graph"
version = "0.1.0"
edition = "2021"
publish = false

[dependencies]
clean-path = "=0.2.1"
petgraph = "=0.6.5"
starbase_utils = { version = "=0.14.7", default-features = false, features = ["json", "yaml"] }
nodejs_package_json = "=0.4.11"
oxc = "=0.144.0"
oxc_resolver = "=11.24.3"
