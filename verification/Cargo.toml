[package]
name = "mp3-player"
version = "0.1.0"
edition = "2021"
publish = false

[dependencies]
serde = { version = "1", features = ["derive"] }
serde_json = "1"
reqwest = { version = "0.12", default-features = false }
reqwest-wasm = { version = "*", default-features = false }
axum = "0.8"
tokio = { version = "1", features = ["macros", "rt-multi-thread", "net", "io-util"] }
tower-http = { version = "0.6", features = ["fs"] }
sonic-rs = "*"
symphonia-core = "0.5"
symphonia-codec-aac = "0.5"
web-sys = { version = "0.3", features = ["AudioContext", "BaseAudioContext", "AudioBuffer", "AudioBufferOptions", "AudioBufferSourceNode", "AudioScheduledSourceNode", "AudioNode", "AudioDestinationNode", "GainNode", "GainOptions", "EventTarget", "Window", "Document", "HtmlElement", "Element", "Node"] }
wasm-bindgen = "0.2"
wasm-bindgen-futures = "0.4"
futures = "0.3"
tokio-util = "0.7"
tokio_with_wasm = "*"
