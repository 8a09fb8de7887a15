[package]
name = "lambdacalc"
version = "0.1.0"
edition = "2021"
publish = false

[dependencies]
anyhow = "1"
lalrpop-util = "0.19"
rustyline = "9.1"
structopt = "0.3"
