[package]
name = "vector_fields"
version = "0.1.0"
edition = "2021"
publish = false

[dependencies]
rand = "0.8"
num = "0.4"
scoped_threadpool = "0.1"
image = "0.23"
tetra = { version = "0.6", default-features = false }
