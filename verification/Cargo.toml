[package]
name = "flasher"
version = "0.1.0"
edition = "2021"
publish = false

[dependencies]
cortex-m-rt = "0.7"
defmt = "1.0"
defmt-rtt = "1.0"
embassy-executor = { version = "0.9.1", features = ["arch-spin", "executor-thread", "trace", "defmt"] }
embassy-futures = "=0.1.2"
embassy-rp = { version = "=0.8.0", features = ["rp2040", "time-driver", "critical-section-impl", "unstable-pac", "defmt"] }
embassy-sync = { version = "=0.7.2", features = ["defmt"] }
embassy-time = { version = "=0.5.1", features = ["defmt"] }
embassy-usb = { version = "=0.5.1", features = ["defmt"] }
embedded-io-async = "=0.6.1"
fixed = "=1.31.0"
heapless = { version = "=0.9.3", features = ["serde"] }
num = { version = "=0.4.3", default-features = false }
once_cell = { version = "1", default-features = false, features = ["critical-section"] }
panic-probe = { version = "1.0", features = ["print-defmt"] }
portable-atomic = { version = "1", features = ["critical-section"] }
postcard = { version = "1.1", default-features = false, features = ["experimental-derive"] }
serde = { version = "1", default-features = false, features = ["derive"] }
static_cell = "2"
