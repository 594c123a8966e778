[package]
name = "gg_tracer"
version = "0.1.0"
edition = "2021"
publish = false

[dependencies]
rand = "0.5"
ggez = "0.5"
clap = { version = "2", features = ["yaml"] }
dotenv_codegen = "*"
