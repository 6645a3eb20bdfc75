[package]
name = "icm20948"
version = "0.1.0"
edition = "2021"
publish = false

[dependencies]
defmt = "0.3"
stm32h7xx-hal = { version = "0.16", features = ["stm32h743v"] }
