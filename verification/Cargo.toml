[package]
name = "demuxer"
version = "0.1.0"
edition = "2021"
publish = false

[dependencies]
bitter = "*"
matroska-demuxer = "*"
mp4 = "*"
js-sys = "*"
wasm-bindgen = "*"
web-sys = { version = "*", features = ["VideoDecoder", "EncodedVideoChunk", "EncodedVideoChunkInit", "EncodedVideoChunkType"] }
