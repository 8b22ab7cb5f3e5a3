[package]
name = "bench_multicore"
version = "0.1.0"
edition = "2021"
publish = false

[dependencies]
critical-section = { version = "=1.2.0", features = ["std"] }
embassy-time = { version = "=0.5.1", features = ["std"] }
embassy-time-driver = "=0.2.2"
embassy-futures = "=0.1.2"
defmt = "=1.2.0"
cortex-m = "=0.7.10"
riot-rs-runqueue = "=0.1.2"
ariel-os = "=0.1.0"
