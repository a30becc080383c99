[package]
name = "flashcards"
version = "0.1.0"
edition = "2021"
publish = false

[dependencies]
csv = "1"
rand = "0.8"
serde = { version = "1", features = ["derive"] }
serde_json = "1"
axum = "0.7"
tokio = { version = "1", features = ["macros", "rt-multi-thread", "net"] }
tower-http = { version = "0.5", features = ["cors"] }
yew = { version = "0.21", features = ["csr"] }
gloo-file = "0.3"
web-sys = { version = "0.3", features = ["HtmlInputElement", "Blob", "Url", "Window", "Document", "Element", "HtmlElement", "Storage", "Event", "EventTarget", "File", "FileList"] }
wasm-bindgen = "0.2"
js-sys = "0.3"
