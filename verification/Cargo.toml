[package]
name = "soundwave"
version = "0.1.0"
edition = "2021"
publish = false

[dependencies]
anyhow = "1"
cpal = "0.15"
dasp = "0.11"
dasp_signal = "0.11"
minifb = "0.25"
plotters = "0.3"
plotters-backend = "0.3"
plotters-bitmap = "0.3"
rustfft = "6"
