[package]
name = "gamepad_host"
version = "0.1.0"
edition = "2021"
publish = false

[dependencies]
embassy-executor = "=0.10.0"
embassy-sync = "=0.8.0"
embassy-usb-driver = "=0.2.2"
embassy-usb-host = "=0.1.0"
esp-alloc = { version = "=0.11.0", features = ["esp32s3"] }
esp-backtrace = { version = "=0.20.0", features = ["esp32s3", "println"] }
esp-bootloader-esp-idf = { version = "=0.6.0", features = ["esp32s3"] }
esp-hal = { version = "=1.2.2", features = ["esp32s3", "unstable"] }
esp-hal-smartled = { version = "=0.18.0", features = ["esp32s3"] }
esp-println = { version = "=0.18.0", features = ["esp32s3"] }
esp-rtos = { version = "=0.4.0", features = ["esp32s3", "embassy"] }
log = "=0.4.35"
smart-leds = "=0.4.0"
