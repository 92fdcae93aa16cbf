[package]
name = "kernel"
version = "0.1.0"
edition = "2021"
publish = false

[dependencies]
crossbeam-queue = "=0.3.14"
conquer-once = { version = "=0.4.0", default-features = false }
spin = "=0.12.3"
x86_64 = { version = "=0.15.5", default-features = false, features = ["instructions"] }
pc-keyboard = "=0.9.0"
uart_16550 = "=0.9.0"
x2apic = "=0.5.1"
acpi = { version = "=5.2.0", default-features = false }
bootloader_api = "=0.11.17"
embedded-graphics = "=0.8.2"
linked_list_allocator = "=0.10.6"
