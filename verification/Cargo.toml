[package]
name = "pdforge"
version = "0.1.0"
edition = "2021"
publish = false

[dependencies]
csscolorparser = "0.6"
icu_segmenter = "1"
printpdf = "0.8"
base64 = "0.22"
serde = { version = "1", features = ["derive"] }
serde_json = "1"
tera = "1"
time = { version = "0.3", features = ["formatting", "parsing", "local-offset"] }
image = "0.25"
qrcode = "0.14"
