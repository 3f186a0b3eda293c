[package]
name = "esp_hal_mbedtls"
version = "0.1.0"
edition = "2021"
publish = false

[dependencies]
embassy-net = { version = "=0.9.1", features = ["tcp", "dns", "proto-ipv4", "medium-ethernet"] }
embassy-sync = "=0.8.0"
embassy-time = { version = "=0.5.1", features = ["tick-hz-1_000_000"] }
esp-hal = { version = "=1.2.2", features = ["esp32s3", "unstable"] }
mbedtls-rs = { version = "=0.3.0", default-features = false, features = ["alg-chacha20", "alg-chachapoly", "alg-sha512", "cipher-mode-cbc", "hook-timer", "hook-wall-clock", "ssl-in-content-len-16384", "ssl-out-content-len-2048", "use-gcc"] }
picoserve = { version = "=0.20.1", features = ["embassy"] }
rand_core = "=0.10.1"
static_cell = "=2.1.1"
