[package]
name = "tengin"
version = "0.1.0"
edition = "2021"
publish = false

[dependencies]
mimalloc = { version = "=0.1.52", default-features = false }
oxc_allocator = "=0.143.0"
oxc_ast = { version = "=0.143.0", features = ["serialize"] }
oxc_parser = "=0.143.0"
oxc_span = "=0.143.0"
regex = "=1.13.1"
