[package]
name = "uefi_kernel"
version = "0.1.0"
edition = "2021"
publish = false

[dependencies]
x86_64 = { version = "=0.15.5", default-features = false, features = ["instructions"] }
xmas-elf = "=0.10.0"
uefi = { version = "=0.41.0", features = ["alloc", "logger"] }
log = "=0.4.34"
linked_list_allocator = "=0.10.6"
spin = "=0.12.3"
embedded-graphics = "=0.8.2"
acpi = { version = "=5.2.0", default-features = false }
fatfs = "=0.3.6"
gpt = "=4.1.0"
