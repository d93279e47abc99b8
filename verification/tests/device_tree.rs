use riscv_vmm::devices::{sort_by_addr, MmioDeviceInfo, MmioDevices};
use riscv_vmm::fdt::{
    cpu_intc_phandle, create_fdt, interrupts_extended, riscv_isa_string, InitrdConfig,
    RiscvPlatformFeatures,
};
use riscv_vmm::layout::DRAM_MEM_START;
use riscv_vmm::memory::{GuestMemoryLayout, GuestRegion, GuestRegionType};
use riscv_vmm::vcpu::RiscvIsaExtensions;
use vm_fdt::FdtWriter;

fn guest_memory() -> GuestMemoryLayout {
    GuestMemoryLayout::from_regions(vec![GuestRegion {
        start: DRAM_MEM_START,
        len: 256 << 20,
        region_type: GuestRegionType::Dram,
    }])
    .unwrap()
}

fn dev(addr: u64, gsi: u32) -> MmioDeviceInfo {
    MmioDeviceInfo { addr, len: 0x1000, gsi: Some(gsi) }
}

/// The device tree written call by call with `vm_fdt`, as the monitor is
/// expected to write it.
fn expected_fdt(
    vcpu_count: u8,
    cmdline: &str,
    serial: Option<MmioDeviceInfo>,
    virtio_sorted: &[MmioDeviceInfo],
    initrd: Option<InitrdConfig>,
    aia: bool,
    isa: &str,
) -> Vec<u8> {
    let mut fdt = FdtWriter::new().unwrap();
    let root = fdt.begin_node("").unwrap();
    fdt.property_string("compatible", "linux,dummy-virt").unwrap();
    fdt.property_string("model", "firecracker,riscv64-virt").unwrap();
    fdt.property_u32("#address-cells", 2).unwrap();
    fdt.property_u32("#size-cells", 2).unwrap();

    let cpus = fdt.begin_node("cpus").unwrap();
    fdt.property_u32("#address-cells", 1).unwrap();
    fdt.property_u32("#size-cells", 0).unwrap();
    fdt.property_u32("timebase-frequency", 10_000_000).unwrap();
    for i in 0..vcpu_count {
        let cpu = fdt.begin_node(&format!("cpu@{i:x}")).unwrap();
        fdt.property_string("device_type", "cpu").unwrap();
        fdt.property_string("compatible", "riscv").unwrap();
        fdt.property_string("riscv,isa", isa).unwrap();
        fdt.property_string("mmu-type", "riscv,sv48").unwrap();
        fdt.property_string("status", "okay").unwrap();
        fdt.property_u32("reg", u32::from(i)).unwrap();
        let intc = fdt.begin_node("interrupt-controller").unwrap();
        fdt.property_null("interrupt-controller").unwrap();
        fdt.property_u32("#interrupt-cells", 1).unwrap();
        fdt.property_u32("phandle", 0x100 + u32::from(i)).unwrap();
        fdt.property_string("compatible", "riscv,cpu-intc").unwrap();
        fdt.end_node(intc).unwrap();
        fdt.end_node(cpu).unwrap();
    }
    fdt.end_node(cpus).unwrap();

    let mem = fdt.begin_node("memory@80000000").unwrap();
    fdt.property_string("device_type", "memory").unwrap();
    fdt.property_array_u64("reg", &[DRAM_MEM_START, 256 << 20]).unwrap();
    fdt.end_node(mem).unwrap();

    let chosen = fdt.begin_node("chosen").unwrap();
    fdt.property_string("bootargs", cmdline).unwrap();
    if let Some(s) = serial {
        fdt.property_string("stdout-path", &format!("/uart@{:x}", s.addr)).unwrap();
    }
    if let Some(i) = initrd {
        fdt.property_u64("linux,initrd-start", i.address).unwrap();
        fdt.property_u64("linux,initrd-end", i.address + i.size as u64).unwrap();
    }
    fdt.end_node(chosen).unwrap();

    if aia {
        let imsic = fdt.begin_node("interrupt-controller@28000000").unwrap();
        fdt.property_string_list(
            "compatible",
            vec!["qemu,imsics".to_string(), "riscv,imsics".to_string()],
        )
        .unwrap();
        fdt.property_null("interrupt-controller").unwrap();
        fdt.property_null("msi-controller").unwrap();
        fdt.property_u32("#interrupt-cells", 0).unwrap();
        fdt.property_u32("phandle", 2).unwrap();
        fdt.property_u32("riscv,guest-index-bits", 0).unwrap();
        fdt.property_u32("riscv,num-ids", 255).unwrap();
        fdt.property_array_u64("reg", &[0x2800_0000, 0x1000 * u64::from(vcpu_count)]).unwrap();
        let mut cells = Vec::new();
        for i in 0..vcpu_count {
            cells.push(0x100 + u32::from(i));
            cells.push(9);
        }
        fdt.property_array_u32("interrupts-extended", &cells).unwrap();
        fdt.end_node(imsic).unwrap();
        let aplic = fdt.begin_node("interrupt-controller@d000000").unwrap();
        fdt.property_string_list(
            "compatible",
            vec!["qemu,aplic".to_string(), "riscv,aplic".to_string()],
        )
        .unwrap();
        fdt.property_null("interrupt-controller").unwrap();
        fdt.property_u32("#interrupt-cells", 2).unwrap();
        fdt.property_u32("#address-cells", 0).unwrap();
        fdt.property_u32("phandle", 1).unwrap();
        fdt.property_u32("msi-parent", 2).unwrap();
        fdt.property_u32("riscv,num-sources", 256).unwrap();
        fdt.property_array_u64("reg", &[0x0d00_0000, 0x8000]).unwrap();
        fdt.end_node(aplic).unwrap();
    }

    if let Some(s) = serial {
        let node = fdt.begin_node(&format!("uart@{:x}", s.addr)).unwrap();
        fdt.property_string("compatible", "ns16550a").unwrap();
        fdt.property_array_u64("reg", &[s.addr, s.len]).unwrap();
        fdt.property_u32("clock-frequency", 3_686_400).unwrap();
        fdt.property_u32("current-speed", 115_200).unwrap();
        if aia {
            fdt.property_u32("interrupt-parent", 1).unwrap();
            fdt.property_array_u32("interrupts", &[s.gsi.unwrap(), 1]).unwrap();
        }
        fdt.end_node(node).unwrap();
    }
    for d in virtio_sorted {
        let node = fdt.begin_node(&format!("virtio_mmio@{:x}", d.addr)).unwrap();
        fdt.property_null("dma-coherent").unwrap();
        fdt.property_string("compatible", "virtio,mmio").unwrap();
        fdt.property_array_u64("reg", &[d.addr, d.len]).unwrap();
        if aia {
            fdt.property_u32("interrupt-parent", 1).unwrap();
            fdt.property_array_u32("interrupts", &[d.gsi.unwrap(), 1]).unwrap();
        }
        fdt.end_node(node).unwrap();
    }
    fdt.end_node(root).unwrap();
    fdt.finish().unwrap()
}

#[test]
fn isa_string() {
    assert_eq!(riscv_isa_string(RiscvIsaExtensions::default()), "rv64imafdc_zicsr_zifencei");
    assert_eq!(
        riscv_isa_string(RiscvIsaExtensions { ssaia: true, sstc: true }),
        "rv64imafdc_zicsr_zifencei_ssaia_sstc"
    );
    assert_eq!(
        riscv_isa_string(RiscvIsaExtensions { ssaia: false, sstc: true }),
        "rv64imafdc_zicsr_zifencei_sstc"
    );
}

#[test]
fn cpu_phandles_and_interrupts_extended() {
    assert_eq!(cpu_intc_phandle(0), 0x100);
    assert_eq!(cpu_intc_phandle(255), 0x1ff);
    assert_eq!(interrupts_extended(3), vec![0x100, 9, 0x101, 9, 0x102, 9]);
    assert!(interrupts_extended(0).is_empty());
}

#[test]
fn virtio_devices_are_sorted_by_address() {
    let sorted = sort_by_addr(&vec![dev(0x3000, 3), dev(0x1000, 1), dev(0x2000, 2), dev(0x1000, 4)]);
    assert_eq!(sorted, vec![dev(0x1000, 1), dev(0x1000, 4), dev(0x2000, 2), dev(0x3000, 3)]);
}

#[test]
fn minimal_device_tree() {
    let devices = MmioDevices { serial: None, virtio: vec![] };
    let blob = create_fdt(
        &guest_memory(),
        1,
        "console=ttyS0".to_string(),
        &devices,
        &None,
        RiscvPlatformFeatures::default(),
    )
    .unwrap();
    assert_eq!(blob, expected_fdt(1, "console=ttyS0", None, &[], None, false, "rv64imafdc_zicsr_zifencei"));
    assert_eq!(&blob[0..4], &[0xd0, 0x0d, 0xfe, 0xed]);
}

#[test]
fn full_device_tree_with_aia() {
    let serial = dev(0x1000_1000, 1);
    let virtio = vec![dev(0x1000_4000, 3), dev(0x1000_3000, 2)];
    let devices = MmioDevices { serial: Some(serial), virtio: virtio.clone() };
    let initrd = Some(InitrdConfig { address: 0x8f00_0000, size: 0x12345 });
    let features = RiscvPlatformFeatures {
        aia: true,
        isa: RiscvIsaExtensions { ssaia: true, sstc: false },
    };
    let blob = create_fdt(&guest_memory(), 3, "root=/dev/vda".to_string(), &devices, &initrd, features)
        .unwrap();
    let expected = expected_fdt(
        3,
        "root=/dev/vda",
        Some(serial),
        &[dev(0x1000_3000, 2), dev(0x1000_4000, 3)],
        initrd,
        true,
        "rv64imafdc_zicsr_zifencei_ssaia",
    );
    assert_eq!(blob, expected);
}

#[test]
fn device_tree_without_aia_has_no_interrupts() {
    let serial = MmioDeviceInfo { addr: 0x1000_1000, len: 0x1000, gsi: None };
    let devices = MmioDevices { serial: Some(serial), virtio: vec![dev(0x1000_2000, 5)] };
    let blob = create_fdt(
        &guest_memory(),
        2,
        String::new(),
        &devices,
        &None,
        RiscvPlatformFeatures::default(),
    )
    .unwrap();
    let expected = expected_fdt(
        2,
        "",
        Some(serial),
        &[dev(0x1000_2000, 5)],
        None,
        false,
        "rv64imafdc_zicsr_zifencei",
    );
    assert_eq!(blob, expected);
}

#[test]
fn command_line_with_nul_is_refused() {
    let devices = MmioDevices { serial: None, virtio: vec![] };
    let r = create_fdt(
        &guest_memory(),
        1,
        "console=ttyS0\0quiet".to_string(),
        &devices,
        &None,
        RiscvPlatformFeatures::default(),
    );
    assert!(matches!(r, Err(riscv_vmm::fdt::FdtError::CreateFdt(vm_fdt::Error::InvalidString))));
}

#[test]
fn device_tree_for_many_cpus_succeeds() {
    let devices = MmioDevices { serial: None, virtio: vec![] };
    let blob = create_fdt(
        &guest_memory(),
        11,
        "console=ttyS0".to_string(),
        &devices,
        &None,
        RiscvPlatformFeatures::default(),
    )
    .unwrap();
    assert_eq!(blob, expected_fdt(11, "console=ttyS0", None, &[], None, false, "rv64imafdc_zicsr_zifencei"));
}
