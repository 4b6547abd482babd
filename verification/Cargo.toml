[package]
name = "knowledge_base"
version = "0.1.0"
edition = "2021"

[dependencies]
toml = "0.5"
glob = "0.3"
crossterm = "0.25"
tui = "0.19"
structopt = "0.3"
