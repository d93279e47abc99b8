[package]
name = "riscv_vmm"
version = "0.1.0"
edition = "2021"
publish = false

[dependencies]
vm-fdt = "*"
serde = { version = "1", features = ["derive"] }
serde_json = "1"
kvm-ioctls = "*"
kvm-bindings = "*"
vm-memory = { version = "*", features = ["backend-mmap"] }
linux-loader = { version = "*", features = ["pe"] }
vm-allocator = "*"
thiserror = "*"
displaydoc = "*"
