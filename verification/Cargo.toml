[package]
name = "kernel"
version = "0.1.0"
edition = "2021"
publish = false

[dependencies]
bootloader = { version = "=0.9.35", features = ["map_physical_memory"] }
x86_64 = { version = "=0.14.13", default-features = false, features = ["instructions"] }
crossbeam-queue = "=0.2.3"
futures-util = { version = "=0.3.34", default-features = false, features = ["alloc"] }
pc-keyboard = "=0.7.0"
pic8259 = { version = "=0.10.4", default-features = false }
spin = "=0.5.2"
lazy_static = { version = "=1.5.1", features = ["spin_no_std"] }
conquer-once = { version = "=0.3.2", default-features = false }
thiserror-no-std = "=2.0.2"
