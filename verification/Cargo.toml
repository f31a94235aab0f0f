[package]
name = "tanoshi"
version = "0.1.0"
edition = "2021"
publish = false

[dependencies]
chrono = "0.4"
dominator = "0.5"
futures-signals = "0.3"
js-sys = "0.3"
log = "0.4"
regex = "1"
scraper = "*"
serde = { version = "1", features = ["derive"] }
serde_json = "1"
serde_urlencoded = "0.7"
ureq = { version = "1", default-features = false }
wasm-bindgen = "0.2"
web-sys = { version = "0.3", features = ["Document", "Element", "History", "HtmlCollection", "HtmlElement", "HtmlImageElement", "Window"] }
