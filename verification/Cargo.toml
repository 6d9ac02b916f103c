[package]
name = "rekordcrate"
version = "0.1.0"
edition = "2021"
publish = false

[dependencies]
svg = "=0.18.0"
diesel = { version = "=2.3.14", features = ["sqlite", "64-column-tables"] }
diesel-derive-newtype = "=2.1.3"
thiserror = "=2.0.21"
fallible-iterator = "=0.3.0"
