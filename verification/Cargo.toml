[package]
name = "gophsters"
version = "0.1.0"
edition = "2021"
publish = false

[dependencies]
chrono = "=0.4.45"
deunicode = "=1.4.4"
error-chain = "=0.12.4"
rayon = "=1.12.0"
regex = "=1.13.1"
reqwest = { version = "=0.12.28", features = ["blocking"] }
serde_json = "=1.0.154"
structopt = "=0.3.26"
textwrap = "=0.16.4"
url = "=2.5.8"
