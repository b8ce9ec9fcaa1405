[package]
name = "mephisto_emu"
version = "0.1.0"
edition = "2021"
publish = false

[dependencies]
chess = "*"
vampirc-uci = { version = "*", features = ["chess"] }
w65c02s = "*"
