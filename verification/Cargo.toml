[package]
name = "invoice_scanner"
version = "0.1.0"
edition = "2021"
publish = false

[dependencies]
base64 = "0.22"
calamine = "*"
chrono = "0.4"
dirs = "*"
dotenvy = "0.15"
edit-xlsx = "*"
opener = "*"
regex = "1"
reqwest = { version = "*", default-features = false, features = ["blocking", "json"] }
rusqlite = { version = "*", features = ["bundled"] }
rust_xlsxwriter = "*"
serde = { version = "1", features = ["derive"] }
serde_json = "1"
zip = "*"
