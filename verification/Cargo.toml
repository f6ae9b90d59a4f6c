[package]
name = "node_storage"
version = "0.1.0"
edition = "2021"
publish = false

[dependencies]
oxc_ast = "=0.143.0"
oxc_syntax = "=0.143.0"
oxc_data_structures = { version = "=0.143.0", features = ["stack"] }

[dev-dependencies]
oxc_allocator = "=0.143.0"
oxc_span = "=0.143.0"
