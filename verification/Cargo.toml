[package]
name = "urd_kernel"
version = "0.1.0"
edition = "2021"
publish = false

[dependencies]
bootloader_api = "=0.11.17"
crossbeam-queue = { version = "=0.3.14", default-features = false, features = ["alloc"] }
embedded-graphics = "=0.8.2"
font8x8 = { version = "=0.3.1", default-features = false }
ovmf-prebuilt = "=0.2.9"
pic8259 = { version = "=0.11.0", default-features = false, features = ["stable"] }
spin = "=0.9.9"
talc = { version = "=4.4.3", default-features = false, features = ["lock_api"] }
uart_16550 = "=0.3.2"
x86_64 = { version = "=0.15.5", default-features = false, features = ["instructions"] }
