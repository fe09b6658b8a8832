[package]
name = "aruaru-web"
version = "0.1.0"
edition = "2021"
publish = false

[dependencies]
wasm-bindgen = "0.2"
wasm-bindgen-futures = "0.4"
js-sys = "0.3"
web-sys = { version = "0.3", features = ["Window", "Document", "Element", "HtmlElement", "HtmlButtonElement", "HtmlInputElement", "HtmlTextAreaElement", "HtmlSelectElement", "HtmlAnchorElement", "Event", "EventTarget", "KeyboardEvent", "Storage", "Request", "RequestInit", "RequestMode", "Response", "Headers", "Node", "NodeList", "CssStyleDeclaration", "DomTokenList", "console", "File", "FileList", "Blob", "BlobPropertyBag", "Url"] }
serde = { version = "1", features = ["derive"] }
serde_json = "1"
