[package]
name = "fileemu_utoc_stream_emulator"
version = "0.1.0"
edition = "2021"
publish = false

[dependencies]
byteorder = "1"
cityhasher = "*"
sha1 = "0.10"
