[package]
name = "lower_ir_utils"
version = "0.1.0"
edition = "2021"
publish = false

[dependencies]
chrono = { version = "=0.4.45", default-features = false }
capstone = "=0.14.0"
cranelift-codegen = "=0.135.8"
cranelift-frontend = "=0.135.8"
cranelift-module = "=0.135.8"
cranelift-jit = "=0.135.8"
cranelift-native = "=0.135.8"
smallvec = "=1.16.4"
tokio = { version = "=1.54.1", features = ["rt", "rt-multi-thread", "macros"] }
syn = { version = "=2.0.119", features = ["full"] }
quote = "=1.0.47"
proc-macro2 = "=1.0.107"
