[package]
name = "lmx2594"
version = "0.1.0"
edition = "2021"
publish = false

[dependencies]
cortex-m = "0.7"
cortex-m-rt = "0.7"
defmt = "0.3"
defmt-rtt = "0.4"
embedded-hal = "0.2"
fugit = "0.3"
panic-halt = "0.2"
rp-pico = "0.6"
