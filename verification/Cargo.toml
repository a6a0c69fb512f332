[package]
name = "jsx_transpiler"
version = "0.1.0"
edition = "2021"
publish = false

[dependencies]
anyhow = "=1.0.104"
clap = { version = "=4.6.7", features = ["derive"] }
num-traits = "=0.2.19"
rand = "=0.8.8"
ring = "=0.17.14"
serde = "=1.0.219"
swc = "=0.273.28"
swc_common = "=0.33.26"
swc_config = "=0.1.13"
swc_core = { version = "=0.90.37", features = ["ecma_visit"] }
swc_ecma_ast = "=0.112.8"
swc_ecma_parser = "=0.143.16"

[dev-dependencies]
bincode = "=2.0.0-rc.3"
