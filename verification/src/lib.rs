//! Boot-time logic of a RISC-V KVM microVM monitor: the guest physical
//! memory map, the placement of the kernel, initrd and device tree, the
//! flattened device tree that describes the machine, the vCPU boot registers,
//! the in-kernel AIA interrupt controller setup, and CPU templates.

use vstd::prelude::*;

pub mod external;
pub mod layout;
pub mod memory;
pub mod arch;
pub mod vcpu;
pub mod vm;
pub mod cpu_config;
pub mod devices;
pub mod fdt_writer;
pub mod fdt;
pub mod fdt_laws;
pub mod kvm;
pub mod template;
