use riscv_vmm::kvm::{KVM_CAP_IOEVENTFD, KVM_CAP_ONE_REG, KVM_CAP_USER_MEMORY};
use riscv_vmm::vcpu::{KVM_REG_RISCV, KVM_REG_SIZE_U64};
use riscv_vmm::vm::KVM_DEV_TYPE_RISCV_AIA;
use riscv_vmm::layout::{
    AIA_APLIC_MEM_START, AIA_IMSIC_MEM_SIZE, AIA_IMSIC_MEM_START, AIA_IMSIC_NUM_IDS,
    DRAM_MEM_START, FDT_MAX_SIZE, GSI_LEGACY_NUM,
};
use riscv_vmm::memory::{GuestMemoryLayout, GuestRegion, GuestRegionType};
use riscv_vmm::vcpu::{
    boot_registers, restore_vcpu_state, riscv_core_reg_id, save_vcpu_state,
    KvmVcpuError, Peripherals, VcpuEmulation, VcpuExitKind, VcpuState, RISCV_CORE_REG_A0, RISCV_CORE_REG_A1,
    RISCV_CORE_REG_PC,
};
use riscv_vmm::vm::{aia_device_attrs, AiaAttrValue, AiaDeviceAttr};

#[test]
fn core_register_ids() {
    assert_eq!(riscv_core_reg_id(RISCV_CORE_REG_PC), 0x8030_0000_0200_0000);
    assert_eq!(riscv_core_reg_id(RISCV_CORE_REG_A0), 0x8030_0000_0200_000a);
    assert_eq!(riscv_core_reg_id(RISCV_CORE_REG_A1), 0x8030_0000_0200_000b);
}

#[test]
fn boot_vcpu_registers() {
    let m = GuestMemoryLayout::from_regions(vec![GuestRegion {
        start: DRAM_MEM_START,
        len: 128 << 20,
        region_type: GuestRegionType::Dram,
    }])
    .unwrap();
    let fdt = DRAM_MEM_START + (128 << 20) - FDT_MAX_SIZE as u64;
    assert_eq!(
        boot_registers(0, 0x8020_0000, &m),
        vec![
            (0x8030_0000_0200_0000, 0x8020_0000),
            (0x8030_0000_0200_000a, 0),
            (0x8030_0000_0200_000b, fdt),
        ]
    );
    assert!(boot_registers(1, 0x8020_0000, &m).is_empty());
}

#[test]
fn vcpu_snapshots_are_unsupported() {
    assert_eq!(save_vcpu_state(), Err(KvmVcpuError::SnapshotUnsupported));
    assert_eq!(restore_vcpu_state(&VcpuState), Err(KvmVcpuError::SnapshotUnsupported));
}

#[test]
fn shutdown_stops_the_vcpu() {
    let p = Peripherals;
    assert_eq!(p.run_arch_emulation(VcpuExitKind::Shutdown), Ok(VcpuEmulation::Stopped));
    assert_eq!(p.run_arch_emulation(VcpuExitKind::Other), Err(()));
}

#[test]
fn aia_attributes_for_two_vcpus() {
    let attrs = aia_device_attrs(2);
    assert_eq!(
        attrs,
        vec![
            AiaDeviceAttr { group: 0, attr: 0, value: AiaAttrValue::U32(2) },
            AiaDeviceAttr { group: 0, attr: 1, value: AiaAttrValue::U32(AIA_IMSIC_NUM_IDS) },
            AiaDeviceAttr { group: 0, attr: 2, value: AiaAttrValue::U32(GSI_LEGACY_NUM) },
            AiaDeviceAttr { group: 1, attr: 0, value: AiaAttrValue::U64(AIA_APLIC_MEM_START) },
            AiaDeviceAttr { group: 1, attr: 1, value: AiaAttrValue::U64(AIA_IMSIC_MEM_START) },
            AiaDeviceAttr {
                group: 1,
                attr: 2,
                value: AiaAttrValue::U64(AIA_IMSIC_MEM_START + AIA_IMSIC_MEM_SIZE),
            },
            AiaDeviceAttr { group: 2, attr: 0, value: AiaAttrValue::NoValue },
        ]
    );
}

#[test]
fn aia_attributes_without_vcpus() {
    assert_eq!(aia_device_attrs(0).len(), 5);
    assert_eq!(aia_device_attrs(255).len(), 260);
    assert_eq!(
        aia_device_attrs(255)[258],
        AiaDeviceAttr {
            group: 1,
            attr: 255,
            value: AiaAttrValue::U64(AIA_IMSIC_MEM_START + 254 * AIA_IMSIC_MEM_SIZE),
        }
    );
}

#[test]
fn kvm_constants_match_kvm_bindings() {
    assert_eq!(KVM_CAP_IOEVENTFD, kvm_bindings::KVM_CAP_IOEVENTFD);
    assert_eq!(KVM_CAP_USER_MEMORY, kvm_bindings::KVM_CAP_USER_MEMORY);
    assert_eq!(KVM_CAP_ONE_REG, kvm_bindings::KVM_CAP_ONE_REG);
    assert_eq!(KVM_REG_SIZE_U64, kvm_bindings::KVM_REG_SIZE_U64);
    assert_eq!(KVM_REG_RISCV, kvm_bindings::KVM_REG_RISCV as u64);
    assert_eq!(KVM_DEV_TYPE_RISCV_AIA, kvm_bindings::kvm_device_type_KVM_DEV_TYPE_RISCV_AIA);
}
