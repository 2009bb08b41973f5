[package]
name = "mybox"
version = "0.1.0"
edition = "2021"
publish = false

[dependencies]
console_error_panic_hook = "0.1"
gloo-net = { version = "0.6", features = ["json"] }
js-sys = "0.3"
leptos = { version = "0.8", features = ["csr"] }
leptos_router = "0.8"
serde = { version = "1", features = ["derive"] }
serde_json = "1"
wasm-bindgen = "0.2"
wasm-bindgen-futures = "0.4"
web-sys = { version = "0.3", features = ["Blob", "BlobPropertyBag", "CssStyleDeclaration", "Crypto", "CustomEvent", "Document", "DomRect", "Element", "Event", "EventTarget", "File", "FileList", "FileReader", "HtmlAnchorElement", "HtmlDocument", "HtmlElement", "HtmlInputElement", "HtmlSelectElement", "HtmlTextAreaElement", "KeyboardEvent", "Location", "MouseEvent", "Navigator", "PointerEvent", "ProgressEvent", "RequestCredentials", "Storage", "Url", "UrlSearchParams", "WheelEvent", "Window", "console"] }
