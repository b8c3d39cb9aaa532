[package]
name = "tm1638"
version = "0.1.0"
edition = "2021"
publish = false

[dependencies]
embedded-hal = "=1.0.0"
embedded-hal-async = "=1.0.0"
embassy-time = "=0.5.1"
embassy-sync = "=0.8.0"
embassy-embedded-hal = "=0.6.0"
embassy-executor = "=0.9.1"
embassy-stm32 = { version = "=0.6.0", features = ["stm32f411ce", "time-driver-any"] }
defmt-rtt = "=1.3.1"
panic-probe = "=1.0.0"
