[package]
name = "smart_garland"
version = "0.1.0"
edition = "2021"
publish = false

[dependencies]
embassy-executor = "=0.10.0"
embassy-sync = "=0.8.0"
embassy-time = "=0.5.1"
esp-alloc = "=0.11.0"
esp-backtrace = { version = "=0.20.0", features = ["esp32c6", "panic-handler", "println"] }
esp-bootloader-esp-idf = { version = "=0.5.0", features = ["esp32c6"] }
esp-hal = { version = "=1.1.2", features = ["esp32c6", "unstable"] }
esp-println = { version = "=0.18.0", features = ["esp32c6", "log-04"] }
esp-radio = { version = "=0.18.0", features = ["esp32c6", "ble", "ieee802154", "unstable"] }
esp-rtos = { version = "=0.3.0", features = ["esp32c6", "embassy", "esp-alloc", "esp-radio"] }
log = "=0.4.34"
rs-matter-embassy = "*"
static_cell = "=2.1.1"
tinyrlibc = "=0.5.1"
