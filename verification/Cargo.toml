[package]
name = "irq_counter"
version = "0.1.0"
edition = "2021"
publish = false

[dependencies]
arrayvec = "0.5"
cortex-m = "0.7"
cortex-m-rt = "0.7"
panic-halt = "0.2"
ssd1306 = "0.3"
stm32f0xx-hal = { version = "0.18", features = ["stm32f042", "rt"] }
