[package]
name = "handy"
version = "0.1.0"
edition = "2021"
publish = false

[dependencies]
serde = { version = "1.0.229", features = ["derive"] }
serde_json = "1.0.154"
log = "0.4.35"
hound = "3.5.1"
reqwest = { version = "0.12.28", default-features = false, features = ["blocking"] }
enigo = "0.6.1"
specta = "1.0.5"
transcribe-rs = { version = "=0.3.12", features = ["onnx", "whisper-cpp"] }
