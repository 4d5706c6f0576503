[package]
name = "dsp_analyze"
version = "0.1.0"
edition = "2021"
publish = false

[dependencies]
hound = "*"
realfft = "*"
plotters = { version = "*", default-features = false, features = ["svg_backend", "line_series"] }
