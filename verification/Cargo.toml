[package]
name = "midi_looper"
version = "0.1.0"
edition = "2021"
publish = false

[dependencies]
heapless = "=0.8.0"
hash32 = "=0.3.1"
embedded-midi = "=0.1.2"
cortex-m = "=0.6.7"
cortex-m-rtic = "=0.5.9"
panic-itm = "=0.4.2"
stm32f4xx-hal = { version = "=0.8.3", features = ["rt", "stm32f407"] }
