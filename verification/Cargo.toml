[package]
name = "mseq_tb"
version = "0.1.0"
edition = "2021"
publish = false

[dependencies]
crc = "*"
rand = "*"
log = "*"
serde = { version = "*", features = ["derive"] }
toml = "*"
clap = { version = "*", features = ["derive"] }
anyhow = "*"
midir = "*"
mseq = "*"
cortex-m = "*"
cortex-m-rt = "*"
stm32f4xx-hal = { version = "*", features = ["stm32f413"] }
rtt-target = "*"
panic-rtt-target = "*"
embedded-hal-nb = "*"
nb = "*"
fugit = "*"
