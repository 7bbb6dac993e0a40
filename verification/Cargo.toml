[package]
name = "venix"
version = "0.4.0"
edition = "2021"
publish = false

[dependencies]
bytes = { version = "=1.12.1", default-features = false }
xmas-elf = "=0.10.0"
x86_64 = { version = "=0.15.5", default-features = false, features = ["instructions"] }
spin = "=0.12.3"
pci_types = "=0.10.1"
noto-sans-mono-bitmap = "=0.4.0"
log = "=0.4.35"
