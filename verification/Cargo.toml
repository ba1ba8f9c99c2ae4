[package]
name = "netlist_db"
version = "0.1.0"
edition = "2021"
publish = false

[dependencies]
fast-float2 = "*"
regex = "1"
indexmap = "2"
tokio = { version = "1", features = ["fs", "rt-multi-thread", "macros", "sync"] }
log = "0.4"
simple_logger = "*"
nu-ansi-term = "*"
colored = "*"
lexical-core = "*"
thiserror = "*"
itertools = "*"
