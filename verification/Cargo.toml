[package]
name = "bmidi_play"
version = "0.1.0"
edition = "2021"
publish = false

[dependencies]
bmidi = "*"
clap = "*"
cpal = "*"
crossbeam = "*"
crossbeam-channel = "*"
dsp-chain = "*"
synth = "*"
