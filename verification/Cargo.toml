[package]
name = "nole"
version = "0.1.0"
edition = "2021"
publish = false

[dependencies]
base64 = "0.21"
chrono = "0.4"
serde = { version = "1", features = ["derive"] }
serde_repr = "0.1"
png = "0.17"
arboard = "3"
trash = "3"
comemo = "0.4"
typst = "0.11"
typst-ide = "0.11"
typst-pdf = "0.11"
typst-render = "0.11"
typst-svg = "0.11"
