[package]
name = "sunny"
version = "0.1.0"
edition = "2021"
publish = false

[dependencies]
anyhow = "1"
chrono = "0.4"
clap = { version = "4", features = ["derive"] }
console = "0.15"
curl = "0.4"
gjson = "0.8"
html-escape = "0.2"
id3 = "1"
indicatif = "0.17"
rayon = "1"
scraper = "*"
strfmt = "0.2"
term-table = "1"
url = "2"
