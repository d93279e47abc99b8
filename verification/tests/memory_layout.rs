use riscv_vmm::arch::{
    align_up, arch_memory_regions, arch_memory_regions_with_gap, get_fdt_addr, get_kernel_start,
    initrd_load_addr, GUEST_PAGE_SIZE,
};
use riscv_vmm::layout::{
    AIA_APLIC_MEM_START, DRAM_MEM_MAX_SIZE, DRAM_MEM_START, FDT_MAX_SIZE,
    FIRST_ADDR_PAST_64BITS_MMIO, GSI_LEGACY_END, GSI_MSI_NUM, GSI_MSI_START, MEM_32BIT_DEVICES_SIZE,
    MEM_32BIT_DEVICES_START, MMIO32_MEM_SIZE, MMIO64_MEM_START, PCI_MMCONFIG_START,
    SERIAL_MEM_START, SYSTEM_MEM_SIZE,
};
use riscv_vmm::memory::{GuestMemoryLayout, GuestRegion, GuestRegionCollectionError, GuestRegionType};

const GIB: u64 = 1 << 30;

fn dram(start: u64, len: u64) -> GuestRegion {
    GuestRegion { start, len, region_type: GuestRegionType::Dram }
}

fn memory(regions: Vec<GuestRegion>) -> GuestMemoryLayout {
    GuestMemoryLayout::from_regions(regions).unwrap()
}

#[test]
fn layout_constants() {
    assert_eq!(GSI_LEGACY_END, 256);
    assert_eq!(GSI_MSI_START, 257);
    assert_eq!(GSI_MSI_NUM, 4095 - 257 + 1);
    assert_eq!(MMIO32_MEM_SIZE, 0x7000_0000);
    assert_eq!(SERIAL_MEM_START, 0x1000_1000);
    assert_eq!(MEM_32BIT_DEVICES_START, 0x1000_2000);
    assert_eq!(PCI_MMCONFIG_START, 0x7000_0000);
    assert_eq!(MEM_32BIT_DEVICES_SIZE, 0x7000_0000 - 0x1000_2000);
    assert_eq!(MMIO64_MEM_START, 256 << 30);
    assert_eq!(FIRST_ADDR_PAST_64BITS_MMIO, 512 << 30);
    assert!(AIA_APLIC_MEM_START < 0x1000_0000);
}

#[test]
fn kernel_start_is_past_reserved_space() {
    assert_eq!(get_kernel_start(), DRAM_MEM_START + SYSTEM_MEM_SIZE);
    assert_eq!(get_kernel_start(), 0x8020_0000);
}

#[test]
fn align_up_values() {
    assert_eq!(align_up(0, 4096), 0);
    assert_eq!(align_up(1, 4096), 4096);
    assert_eq!(align_up(4096, 4096), 4096);
    assert_eq!(align_up(4097, 4096), 8192);
    assert_eq!(align_up(10, 3), 12);
}

#[test]
fn small_memory_is_one_region() {
    let regions = arch_memory_regions(128 << 20);
    assert_eq!(regions, vec![(DRAM_MEM_START, 128 << 20)]);
}

#[test]
fn memory_up_to_the_gap_is_one_region() {
    let size = (MMIO64_MEM_START - DRAM_MEM_START) as usize;
    assert_eq!(arch_memory_regions(size), vec![(DRAM_MEM_START, size as u64)]);
}

#[test]
fn memory_past_the_gap_is_split() {
    let size = (300 * GIB) as usize;
    let regions = arch_memory_regions(size);
    assert_eq!(
        regions,
        vec![
            (DRAM_MEM_START, MMIO64_MEM_START - DRAM_MEM_START),
            (FIRST_ADDR_PAST_64BITS_MMIO, 300 * GIB - (MMIO64_MEM_START - DRAM_MEM_START)),
        ]
    );
    let total: u64 = regions.iter().map(|r| r.1).sum();
    assert_eq!(total, 300 * GIB);
}

#[test]
fn memory_is_capped() {
    let regions = arch_memory_regions((1024 * GIB) as usize);
    let total: u64 = regions.iter().map(|r| r.1).sum();
    assert_eq!(total, DRAM_MEM_MAX_SIZE);
    assert_eq!(regions[1], (FIRST_ADDR_PAST_64BITS_MMIO, DRAM_MEM_MAX_SIZE - 254 * GIB));
}

#[test]
fn region_past_gap_is_moved_after_it() {
    let mut regions = Vec::new();
    let rest = arch_memory_regions_with_gap(&mut regions, 0x3000, 0x1000, 0x1000, 0x1000);
    assert!(regions.is_empty());
    assert_eq!(rest, Some((0x3000, 0x1000)));
    let rest = arch_memory_regions_with_gap(&mut regions, 0x1800, 0x1000, 0x1000, 0x1000);
    assert_eq!(rest, Some((0x2000, 0x1000)));
}

#[test]
fn from_regions_errors() {
    assert_eq!(
        GuestMemoryLayout::from_regions(vec![]).err(),
        Some(GuestRegionCollectionError::NoMemoryRegion)
    );
    assert_eq!(
        GuestMemoryLayout::from_regions(vec![dram(0, 0)]).err(),
        Some(GuestRegionCollectionError::InvalidRegion)
    );
    assert_eq!(
        GuestMemoryLayout::from_regions(vec![dram(u64::MAX, 2)]).err(),
        Some(GuestRegionCollectionError::InvalidRegion)
    );
    assert_eq!(
        GuestMemoryLayout::from_regions(vec![dram(0x2000, 0x1000), dram(0x1000, 0x1000)]).err(),
        Some(GuestRegionCollectionError::UnsortedMemoryRegions)
    );
    assert_eq!(
        GuestMemoryLayout::from_regions(vec![dram(0x1000, 0x1001), dram(0x2000, 0x1000)]).err(),
        Some(GuestRegionCollectionError::MemoryRegionOverlap)
    );
    let m = memory(vec![dram(0x1000, 0x1000), dram(0x2000, 0x1000)]);
    assert_eq!(m.regions().len(), 2);
    assert!(m.address_in_range(0x1000));
    assert!(m.address_in_range(0x2fff));
    assert!(!m.address_in_range(0x3000));
    assert!(!m.address_in_range(0xfff));
}

#[test]
fn fdt_goes_at_the_end_of_dram() {
    let m = memory(vec![dram(DRAM_MEM_START, 128 << 20)]);
    let fdt = get_fdt_addr(&m);
    assert_eq!(fdt, DRAM_MEM_START + (128 << 20) - FDT_MAX_SIZE as u64);
}

#[test]
fn fdt_goes_at_dram_start_when_dram_is_too_small() {
    let m = memory(vec![dram(DRAM_MEM_START, 0x1000)]);
    assert_eq!(get_fdt_addr(&m), DRAM_MEM_START);
}

#[test]
fn fdt_uses_the_first_dram_region() {
    let m = memory(vec![
        GuestRegion { start: 0x1000, len: 0x1000, region_type: GuestRegionType::Hotpluggable },
        dram(DRAM_MEM_START, 64 << 20),
        dram(MMIO64_MEM_START * 2, 64 << 20),
    ]);
    assert_eq!(get_fdt_addr(&m), DRAM_MEM_START + (64 << 20) - FDT_MAX_SIZE as u64);
}

#[test]
fn initrd_goes_below_the_fdt() {
    let m = memory(vec![dram(DRAM_MEM_START, 128 << 20)]);
    let fdt = get_fdt_addr(&m);
    assert_eq!(initrd_load_addr(&m, 0x1000), Some(fdt - 0x1000));
    assert_eq!(initrd_load_addr(&m, 0x1001), Some(fdt - 0x2000));
    assert_eq!(initrd_load_addr(&m, 0), Some(fdt));
    let addr = initrd_load_addr(&m, 5000).unwrap();
    assert_eq!(addr % GUEST_PAGE_SIZE as u64, 0);
    assert!(addr + 5000 <= fdt);
}

#[test]
fn initrd_too_big_does_not_fit() {
    let m = memory(vec![dram(DRAM_MEM_START, 128 << 20)]);
    assert_eq!(initrd_load_addr(&m, 128 << 20), None);
    assert_eq!(initrd_load_addr(&m, (128 << 20) - FDT_MAX_SIZE), Some(DRAM_MEM_START));
}
