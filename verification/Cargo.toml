[package]
name = "multi_codec"
version = "1.0.5"
edition = "2021"
publish = false

[dependencies]
multi-trait = "=1.0.5"
thiserror = "=2.0.21"
