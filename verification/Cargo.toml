[package]
name = "radon_core"
version = "0.1.0"
edition = "2021"
publish = false

[dependencies]
pci_types = "*"
gpt_disk_io = "*"
spin = "*"
