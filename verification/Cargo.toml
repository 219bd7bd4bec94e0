[package]
name = "kernel_core"
version = "0.1.0"
edition = "2021"
publish = false

[dependencies]
font8x8 = { version = "*", default-features = false, features = ["unicode"] }
lazy_static = { version = "*", features = ["spin_no_std"] }
linked_list_allocator = "*"
log = "*"
pc-keyboard = "*"
pic8259 = "*"
spin = "*"
uart_16550 = "*"
uefi = "*"
x86_64 = { version = "*", default-features = false, features = ["instructions"] }
xmas-elf = "*"
