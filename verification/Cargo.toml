[package]
name = "krust"
version = "0.3.0"
edition = "2021"
publish = false

[dependencies]
vt100 = "0.16"
axum = { version = "0.7", features = ["ws"] }
tokio = { version = "1", features = ["full"] }
tower-http = { version = "0.5", features = ["cors"] }
futures-util = "0.3"
portable-pty = "0.8"
serde = { version = "1", features = ["derive"] }
serde_json = "1"
ab_glyph = "0.2"
wasm-bindgen = "0.2"
js-sys = "0.3"
web-sys = { version = "0.3", features = ["Window", "Document", "Element", "HtmlElement", "HtmlCanvasElement", "CanvasRenderingContext2d", "TextMetrics", "ImageData", "Node", "WebGl2RenderingContext", "WebGlBuffer", "WebGlProgram", "WebGlShader", "WebGlTexture", "WebGlUniformLocation"] }
console_error_panic_hook = "0.1"
