//! RISC-V vCPU registers: the identifiers KVM gives to the core registers,
//! and the registers that boot a Linux kernel.

use vstd::prelude::*;

use crate::arch::{get_fdt_addr, spec_fdt_addr};
use crate::memory::{has_dram, GuestMemoryLayout};

verus! {

/// KVM register identifier class of RISC-V registers.
pub const KVM_REG_RISCV: u64 = 0x8000_0000_0000_0000;
/// KVM register identifier size field of 64-bit registers.
pub const KVM_REG_SIZE_U64: u64 = 0x0030_0000_0000_0000;
/// KVM register identifier type field of RISC-V core registers.
pub const KVM_REG_RISCV_CORE: u64 = 0x0200_0000;

/// Index of the program counter among the core registers.
pub const RISCV_CORE_REG_PC: u64 = 0;
/// Index of the `a0` argument register among the core registers.
pub const RISCV_CORE_REG_A0: u64 = 10;
/// Index of the `a1` argument register among the core registers.
pub const RISCV_CORE_REG_A1: u64 = 11;

/// The KVM identifier of the 64-bit core register with index `index`.
pub open spec fn spec_core_reg_id(index: u64) -> u64 {
    KVM_REG_RISCV | KVM_REG_SIZE_U64 | KVM_REG_RISCV_CORE | index
}

/// Returns the KVM identifier of the 64-bit core register with index `index`.
pub fn riscv_core_reg_id(index: u64) -> (r: u64)
    ensures
        r == spec_core_reg_id(index),
{
    KVM_REG_RISCV | KVM_REG_SIZE_U64 | KVM_REG_RISCV_CORE | index
}

/// For an index below 2^24 the identifier is the fixed core-register prefix
/// plus the index, so two such indices never share an identifier.
pub proof fn lemma_core_reg_id_injective(i: u64, j: u64)
    requires
        i < 0x100_0000,
        j < 0x100_0000,
    ensures
        spec_core_reg_id(i) == 0x8030_0000_0200_0000u64 + i,
        spec_core_reg_id(i) == spec_core_reg_id(j) <==> i == j,
{
    assert((0x8000_0000_0000_0000u64 | 0x0030_0000_0000_0000u64 | 0x0200_0000u64 | i)
        == 0x8030_0000_0200_0000u64 + i) by (bit_vector)
        requires
            i < 0x100_0000u64,
    ;
    assert((0x8000_0000_0000_0000u64 | 0x0030_0000_0000_0000u64 | 0x0200_0000u64 | j)
        == 0x8030_0000_0200_0000u64 + j) by (bit_vector)
        requires
            j < 0x100_0000u64,
    ;
}

/// The `(register identifier, value)` pairs that boot vCPU `index`: the boot
/// vCPU starts at `boot_ip` with `a0 = 0` (its hart id) and `a1` pointing at
/// the device tree; the other vCPUs are left alone.
pub open spec fn spec_boot_registers(index: u8, boot_ip: u64, fdt_addr: u64) -> Seq<(u64, u64)> {
    if index == 0 {
        seq![
            (spec_core_reg_id(RISCV_CORE_REG_PC), boot_ip),
            (spec_core_reg_id(RISCV_CORE_REG_A0), 0u64),
            (spec_core_reg_id(RISCV_CORE_REG_A1), fdt_addr),
        ]
    } else {
        Seq::empty()
    }
}

/// Returns the registers, in the order they are written, that boot vCPU
/// `index` into a kernel entered at `boot_ip`.
pub fn boot_registers(index: u8, boot_ip: u64, mem: &GuestMemoryLayout) -> (r: Vec<(u64, u64)>)
    requires
        index == 0 ==> has_dram(mem@),
    ensures
        r@ == spec_boot_registers(index, boot_ip, spec_fdt_addr(mem@)),
{
    let mut regs: Vec<(u64, u64)> = Vec::new();
    if index == 0 {
        regs.push((riscv_core_reg_id(RISCV_CORE_REG_PC), boot_ip));
        regs.push((riscv_core_reg_id(RISCV_CORE_REG_A0), 0));
        regs.push((riscv_core_reg_id(RISCV_CORE_REG_A1), get_fdt_addr(mem)));
        proof {
            assert(regs@ =~= spec_boot_registers(index, boot_ip, spec_fdt_addr(mem@)));
        }
    } else {
        proof {
            assert(regs@ =~= spec_boot_registers(index, boot_ip, spec_fdt_addr(mem@)));
        }
    }
    regs
}

/// The boot vCPU gets, in this order, its program counter set to the entry
/// address it is given, `a0` set to 0 (its hart id) and `a1` set to the
/// address of the device tree; two entry addresses give the same registers
/// but for the program counter. No other vCPU gets a register.
pub proof fn lemma_boot_registers(index: u8, boot_ip: u64, other_ip: u64, fdt_addr: u64)
    ensures
        index == 0 ==> spec_boot_registers(index, boot_ip, fdt_addr) == seq![
            (0x8030_0000_0200_0000u64, boot_ip),
            (0x8030_0000_0200_000au64, 0u64),
            (0x8030_0000_0200_000bu64, fdt_addr),
        ],
        index == 0 ==> spec_boot_registers(index, other_ip, fdt_addr) == spec_boot_registers(
            index,
            boot_ip,
            fdt_addr,
        ).update(0, (0x8030_0000_0200_0000u64, other_ip)),
        index != 0 ==> spec_boot_registers(index, boot_ip, fdt_addr).len() == 0,
{
    lemma_core_reg_id_injective(RISCV_CORE_REG_PC, RISCV_CORE_REG_A0);
    lemma_core_reg_id_injective(RISCV_CORE_REG_A1, RISCV_CORE_REG_A0);
    lemma_core_reg_id_injective(RISCV_CORE_REG_A0, RISCV_CORE_REG_PC);
    if index == 0 {
        assert(spec_boot_registers(index, boot_ip, fdt_addr) =~= seq![
            (0x8030_0000_0200_0000u64, boot_ip),
            (0x8030_0000_0200_000au64, 0u64),
            (0x8030_0000_0200_000bu64, fdt_addr),
        ]);
        assert(spec_boot_registers(index, other_ip, fdt_addr) =~= spec_boot_registers(
            index,
            boot_ip,
            fdt_addr,
        ).update(0, (0x8030_0000_0200_0000u64, other_ip)));
    }
}

/// The ISA extensions of the host CPU that are safe to expose to the guest.
#[derive(Clone, Copy, Debug, Default, PartialEq, Eq, Structural)]
pub struct RiscvIsaExtensions {
    /// The `Ssaia` (supervisor-level AIA) extension.
    pub ssaia: bool,
    /// The `Sstc` (supervisor timer compare) extension.
    pub sstc: bool,
}

/// RISC-V vCPU state kept in a snapshot (empty: snapshots are not supported).
#[derive(Clone, Copy, Debug, Default, PartialEq, Eq, Structural)]
pub struct VcpuState;

/// The outcome of handling a vCPU exit on the architecture side.
#[derive(Clone, Copy, Debug, PartialEq, Eq, Structural)]
pub enum VcpuEmulation {
    /// The vCPU goes on running.
    Handled,
    /// The vCPU is stopped.
    Stopped,
}

/// The kinds of vCPU exits that the architecture side tells apart.
#[derive(Clone, Copy, Debug, PartialEq, Eq, Structural)]
pub enum VcpuExitKind {
    /// The guest asked to shut down.
    Shutdown,
    /// Any other exit.
    Other,
}

/// The vCPU peripherals; the MMIO bus is attached by the run loop.
#[derive(Clone, Copy, Debug, Default, PartialEq, Eq, Structural)]
pub struct Peripherals;

impl Peripherals {
    /// Runs architecture-specific vCPU emulation: a shutdown stops the vCPU,
    /// every other exit that reaches the architecture side is unhandled (`Err`).
    pub fn run_arch_emulation(&self, exit: VcpuExitKind) -> (r: Result<VcpuEmulation, ()>)
        ensures
            exit == VcpuExitKind::Shutdown ==> r == Ok::<VcpuEmulation, ()>(VcpuEmulation::Stopped),
            exit == VcpuExitKind::Other ==> r == Err::<VcpuEmulation, ()>(()),
    {
        match exit {
            VcpuExitKind::Shutdown => Ok(VcpuEmulation::Stopped),
            VcpuExitKind::Other => Err(()),
        }
    }
}

/// Errors of the RISC-V vCPU operations that need no KVM call.
#[derive(Clone, Copy, Debug, PartialEq, Eq, Structural)]
pub enum KvmVcpuError {
    /// RISC-V vCPU snapshot state is not supported yet.
    SnapshotUnsupported,
}

/// Saving the vCPU state: not supported on RISC-V.
pub fn save_vcpu_state() -> (r: Result<VcpuState, KvmVcpuError>)
    ensures
        r == Err::<VcpuState, KvmVcpuError>(KvmVcpuError::SnapshotUnsupported),
{
    Err(KvmVcpuError::SnapshotUnsupported)
}

/// Restoring the vCPU state: not supported on RISC-V.
pub fn restore_vcpu_state(state: &VcpuState) -> (r: Result<(), KvmVcpuError>)
    ensures
        r == Err::<(), KvmVcpuError>(KvmVcpuError::SnapshotUnsupported),
{
    Err(KvmVcpuError::SnapshotUnsupported)
}

} // verus!
