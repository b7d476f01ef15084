[package]
name = "zorua"
version = "0.12.0"
edition = "2021"

[dependencies]
zerocopy = { version = "=0.8.63", features = ["derive"] }
syn = { version = "=2.0.119", default-features = false, features = ["clone-impls", "derive", "extra-traits", "full", "parsing", "printing"] }
quote = { version = "=1.0.47", default-features = false }
proc-macro2 = { version = "=1.0.107", default-features = false }
