[package]
name = "graph_rebase"
version = "0.1.0"
edition = "2021"
publish = false

[dependencies]
gix = { version = "=0.88.0", default-features = false, features = ["sha1"] }
