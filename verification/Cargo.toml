[package]
name = "reflect"
version = "0.1.0"
edition = "2021"

[dependencies]
c2rust-ast-builder = "=0.22.1"
proc-macro2 = "=1.0.107"
quote = "=1.0.47"
smallvec = "=1.16.4"
syn = { version = "=2.0.119", features = ["full", "extra-traits", "printing", "clone-impls"] }
