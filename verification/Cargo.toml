[package]
name = "orm"
version = "0.1.0"
edition = "2021"
publish = false

[dependencies]
rusqlite = "0.31"
thiserror = "1"
syn = "2"
quote = "1"
proc-macro2 = "1"
