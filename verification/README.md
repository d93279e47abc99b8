# riscv_vmm

Verified boot-time logic of a RISC-V KVM microVM monitor.

- `src/` is the library, verified with Verus:
  - `layout`: the guest physical address map of the RISC-V `virt` machine;
  - `memory`: a model of guest memory as ordered, non-overlapping regions;
  - `arch`: RAM regions around the 64-bit MMIO gap, and where the kernel,
    the initrd and the device tree go;
  - `devices`: the MMIO devices seen by the device tree, ordered by address;
  - `fdt_writer`, `fdt`, `fdt_laws`: the flattened device tree, written with
    `vm_fdt`, and what holds of the whole tree (it is well nested, its
    phandles are unique, its references resolve);
  - `vcpu`, `vm`, `kvm`: boot registers, the AIA interrupt controller setup
    and the KVM capabilities;
  - `cpu_config`, `template`: CPU configuration and CPU templates.
- `app/` performs the KVM ioctls, guest memory writes, kernel loading and
  serialisation that the library plans.
- `tests/` runs the library on concrete values.
