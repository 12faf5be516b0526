[package]
name = "aart_core"
version = "0.1.0"
edition = "2021"
publish = false

[dependencies]
cortex-m = "0.7"
cortex-m-rt = "0.7"
embedded-hal = "1.0"
embedded-io = "0.6"
stm32g4xx-hal = { version = "*", features = ["stm32g474"] }
