[package]
name = "wake_word_detector"
version = "0.1.0"
edition = "2021"
publish = false

[dependencies]
rp235x-hal = { version = "=0.4.0", features = ["critical-section-impl"] }
embedded-hal = "=1.0.0"
cortex-m = "=0.7.10"
critical-section = "=1.2.0"
defmt = "=1.2.0"
defmt-rtt = "=1.3.1"
panic-probe = "=1.0.0"
libm = "=0.2.16"
microfft = "=0.6.0"
pio = "=0.3.0"
