[package]
name = "starlight_mmu"
version = "0.1.0"
edition = "2021"
publish = false

[dependencies]
aarch64-cpu = "*"
tock-registers = "*"
linked_list_allocator = "*"
