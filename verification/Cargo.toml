[package]
name = "mikumikutower"
version = "0.1.0"
edition = "2021"
publish = false

[dependencies]
sdl3 = { version = "=0.22.0", features = ["image", "mixer"] }
wasm-bindgen = "=0.2.130"
web-sys = { version = "=0.3.107", features = ["Window", "Document", "Element", "HtmlCanvasElement", "HtmlElement", "Node", "Performance", "CssStyleDeclaration", "console"] }
