[package]
name = "lib_sorrow"
version = "0.1.0"
edition = "2021"
publish = false

[dependencies]
font8x8 = "*"
pc-keyboard = "*"
x86_64 = { version = "*", default-features = false, features = ["instructions"] }
bootloader_api = "*"
spin = "*"
lazy_static = "*"
volatile = "0.4"
conquer-once = "*"
crossbeam-queue = "*"
futures-util = "*"
linked_list_allocator = "*"
rusttype = "*"
