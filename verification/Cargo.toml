[package]
name = "crfsuite"
version = "0.1.0"
edition = "2021"
publish = false

[dependencies]
cqdb = "=0.7.0"
lbfgs = "=0.3.0"
rustc_apfloat = "*"
serde = { version = "=1.0.229", features = ["derive"] }
serde_json = "=1.0.151"
