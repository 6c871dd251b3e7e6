[package]
name = "cos_manager"
version = "0.1.0"
edition = "2021"
publish = false

[dependencies]
bytesize = "1"
urlencoding = "2"
serde = { version = "1", features = ["derive"] }
serde_derive = "1"
serde-xml-rs = "0.6"
actix-web = "4"
actix-session = { version = "0.7", features = ["cookie-session"] }
reqwest = { version = "0.11", default-features = false, features = ["json", "rustls-tls"] }
tera = { version = "1", default-features = false }
