[package]
name = "raccountpage"
version = "0.1.0"
edition = "2021"
publish = false

[dependencies]
chrono = "*"
clap = "2"
dotenv = "*"
fern = "*"
hyper = "0.14"
hyper-tls = "0.5"
log = "*"
restson = "*"
serde = "*"
serde_derive = "*"
serde_json = "*"
