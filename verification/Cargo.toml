[package]
name = "bichrome"
version = "0.1.0"
edition = "2021"
publish = false

[dependencies]
anyhow = "1"
const_format = "0.2"
fruitbasket = "*"
log = "0.4"
regex = "1"
serde = { version = "1", features = ["derive"] }
serde_json = "1"
simplelog = "*"
structopt = "0.3"
thiserror = "*"
url = "2"
webextension_pattern = "*"
winreg = "*"
