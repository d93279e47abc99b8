//! Placement of guest RAM, the kernel, the initrd and the device tree in the
//! guest physical address space.

use vstd::prelude::*;

use crate::layout::{
    DRAM_MEM_MAX_SIZE, DRAM_MEM_START, FDT_MAX_SIZE, FIRST_ADDR_PAST_64BITS_MMIO, MMIO64_MEM_SIZE,
    MMIO64_MEM_START, SYSTEM_MEM_SIZE, SYSTEM_MEM_START,
};
use crate::memory::{
    first_dram, has_dram, is_first_dram, lemma_first_dram, regions_wf, spec_address_in_range,
    GuestMemoryLayout, GuestRegion,
};

verus! {

/// Size of a guest page.
pub const GUEST_PAGE_SIZE: usize = 4096;

/// `addr` rounded up to the next multiple of `align`.
pub open spec fn spec_align_up(addr: int, align: int) -> int {
    if addr % align == 0 {
        addr
    } else {
        addr + (align - addr % align)
    }
}

/// Rounds `addr` up to the next multiple of `align`.
///
/// The sum `addr + align - 1` must fit in 64 bits.
pub fn align_up(addr: u64, align: u64) -> (r: u64)
    requires
        align > 0,
        addr + align - 1 <= u64::MAX,
    ensures
        r == spec_align_up(addr as int, align as int),
        r % align == 0,
        addr <= r < addr + align,
{
    let rem = addr % align;
    if rem == 0 {
        addr
    } else {
        proof {
            assert((addr + (align - rem)) % (align as int) == 0) by (nonlinear_arith)
                requires
                    align > 0,
                    rem == addr % align,
                    rem != 0,
            ;
        }
        addr + (align - rem)
    }
}

/// The regions that [`arch_memory_regions_with_gap`] adds, and the part of the
/// region it hands back as lying past the gap.
pub open spec fn spec_regions_with_gap(
    region_start: int,
    region_size: int,
    gap_start: int,
    gap_size: int,
) -> (Seq<(u64, u64)>, Option<(u64, u64)>) {
    let first_addr_past_gap = gap_start + gap_size;
    if region_start + region_size <= gap_start {
        (seq![(region_start as u64, region_size as u64)], None)
    } else if region_start < gap_start {
        (
            seq![(region_start as u64, (gap_start - region_start) as u64)],
            Some((first_addr_past_gap as u64, (region_start + region_size - gap_start) as u64)),
        )
    } else {
        (
            Seq::empty(),
            Some(
                (
                    (if first_addr_past_gap >= region_start {
                        first_addr_past_gap
                    } else {
                        region_start
                    }) as u64,
                    region_size as u64,
                ),
            ),
        )
    }
}

/// Appends to `regions` the part of the region `[region_start, region_start +
/// region_size)` that lies before the gap `[gap_start, gap_start + gap_size)`,
/// and returns the start and size of what remains of the region past the gap.
pub fn arch_memory_regions_with_gap(
    regions: &mut Vec<(u64, u64)>,
    region_start: u64,
    region_size: u64,
    gap_start: u64,
    gap_size: u64,
) -> (r: Option<(u64, u64)>)
    requires
        gap_start + gap_size <= u64::MAX,
        region_start + region_size <= u64::MAX,
    ensures
        final(regions)@ == old(regions)@ + spec_regions_with_gap(
            region_start as int,
            region_size as int,
            gap_start as int,
            gap_size as int,
        ).0,
        r == spec_regions_with_gap(
            region_start as int,
            region_size as int,
            gap_start as int,
            gap_size as int,
        ).1,
{
    let first_addr_past_gap = gap_start + gap_size;
    let region_end = region_start + region_size;
    if region_end <= gap_start {
        regions.push((region_start, region_size));
        None
    } else if region_start < gap_start {
        regions.push((region_start, gap_start - region_start));
        Some((first_addr_past_gap, region_end - gap_start))
    } else {
        let start = if first_addr_past_gap >= region_start {
            first_addr_past_gap
        } else {
            region_start
        };
        Some((start, region_size))
    }
}

/// The amount of RAM that the guest gets for a requested size.
pub open spec fn spec_dram_size(size: int) -> int {
    if size < DRAM_MEM_MAX_SIZE {
        size
    } else {
        DRAM_MEM_MAX_SIZE as int
    }
}

/// The guest RAM regions for a requested size: RAM starts at `DRAM_MEM_START`
/// and skips the 64-bit MMIO gap.
pub open spec fn spec_arch_memory_regions(size: int) -> Seq<(u64, u64)> {
    let dram = spec_dram_size(size);
    if DRAM_MEM_START + dram <= MMIO64_MEM_START {
        seq![(DRAM_MEM_START, dram as u64)]
    } else {
        seq![
            (DRAM_MEM_START, (MMIO64_MEM_START - DRAM_MEM_START) as u64),
            (FIRST_ADDR_PAST_64BITS_MMIO, (DRAM_MEM_START + dram - MMIO64_MEM_START) as u64),
        ]
    }
}

/// Returns the guest RAM regions, as `(start, size)` pairs, for `size` bytes
/// of requested memory; the size is capped at `DRAM_MEM_MAX_SIZE`.
pub fn arch_memory_regions(size: usize) -> (r: Vec<(u64, u64)>)
    requires
        size > 0,
    ensures
        r@ == spec_arch_memory_regions(size as int),
{
    let size = size as u64;
    let dram_size = if size < DRAM_MEM_MAX_SIZE {
        size
    } else {
        DRAM_MEM_MAX_SIZE
    };
    let mut regions: Vec<(u64, u64)> = Vec::new();
    let rest = arch_memory_regions_with_gap(
        &mut regions,
        DRAM_MEM_START,
        dram_size,
        MMIO64_MEM_START,
        MMIO64_MEM_SIZE,
    );
    if let Some((offset, remaining)) = rest {
        regions.push((offset, remaining));
    }
    proof {
        assert(regions@ =~= spec_arch_memory_regions(size as int));
    }
    regions
}

/// Sum of the sizes of `s`.
pub open spec fn total_size(s: Seq<(u64, u64)>) -> int
    decreases s.len(),
{
    if s.len() == 0 {
        0
    } else {
        total_size(s.drop_last()) + s.last().1
    }
}

/// The RAM regions hold exactly the capped requested size, start at
/// `DRAM_MEM_START`, are ordered and apart, are not empty, and none of them
/// touches the 64-bit MMIO gap.
pub proof fn lemma_arch_memory_regions(size: int)
    requires
        size > 0,
    ensures
        ({
            let s = spec_arch_memory_regions(size);
            &&& 1 <= s.len() <= 2
            &&& s[0].0 == DRAM_MEM_START
            &&& total_size(s) == spec_dram_size(size)
            &&& forall|i: int| 0 <= i < s.len() ==> (#[trigger] s[i]).1 > 0
            &&& forall|i: int|
                0 <= i < s.len() ==> (#[trigger] s[i]).0 + s[i].1 <= MMIO64_MEM_START
                    || s[i].0 >= FIRST_ADDR_PAST_64BITS_MMIO
            &&& forall|i: int, j: int| 0 <= i < j < s.len() ==> #[trigger] s[i].0 + s[i].1 <= #[trigger] s[j].0
        }),
{
    let s = spec_arch_memory_regions(size);
    reveal_with_fuel(total_size, 3);
    if s.len() == 2 {
        assert(s.drop_last() =~= seq![s[0]]);
        assert(s.drop_last().drop_last() =~= Seq::<(u64, u64)>::empty());
    } else {
        assert(s.drop_last() =~= Seq::<(u64, u64)>::empty());
    }
}

/// Returns the memory address where the kernel could be loaded.
pub fn get_kernel_start() -> (r: u64)
    ensures
        r == SYSTEM_MEM_START + SYSTEM_MEM_SIZE,
{
    SYSTEM_MEM_START + SYSTEM_MEM_SIZE
}

/// Where the device tree goes: `FDT_MAX_SIZE` bytes before the end of the
/// first DRAM region when that address is guest memory, else `DRAM_MEM_START`.
pub open spec fn spec_fdt_addr(regions: Seq<GuestRegion>) -> u64 {
    let last = first_dram(regions).spec_last_addr();
    let candidate = last - (FDT_MAX_SIZE - 1);
    if candidate >= 0 && spec_address_in_range(regions, candidate) {
        candidate as u64
    } else {
        DRAM_MEM_START
    }
}

/// Returns the address where the device tree is written in guest memory.
pub fn get_fdt_addr(mem: &GuestMemoryLayout) -> (r: u64)
    requires
        has_dram(mem@),
    ensures
        r == spec_fdt_addr(mem@),
{
    let dram_region = mem.first_dram_region().unwrap();
    let last = dram_region.last_addr();
    let back = (FDT_MAX_SIZE - 1) as u64;
    if last >= back {
        let addr = last - back;
        if mem.address_in_range(addr) {
            return addr;
        }
    }
    DRAM_MEM_START
}

/// Where the initrd goes: right below the device tree, when that address is
/// guest memory.
pub open spec fn spec_initrd_load_addr(regions: Seq<GuestRegion>, initrd_size: int) -> Option<u64> {
    let rounded = spec_align_up(initrd_size, GUEST_PAGE_SIZE as int);
    let fdt = spec_fdt_addr(regions);
    if fdt >= rounded && spec_address_in_range(regions, fdt - rounded) {
        Some((fdt - rounded) as u64)
    } else {
        None
    }
}

/// Returns the memory address where the initrd could be loaded.
pub fn initrd_load_addr(guest_mem: &GuestMemoryLayout, initrd_size: usize) -> (r: Option<u64>)
    requires
        has_dram(guest_mem@),
        initrd_size + GUEST_PAGE_SIZE - 1 <= u64::MAX,
    ensures
        r == spec_initrd_load_addr(guest_mem@, initrd_size as int),
{
    let rounded_size = align_up(initrd_size as u64, GUEST_PAGE_SIZE as u64);
    let fdt_addr = get_fdt_addr(guest_mem);
    if fdt_addr >= rounded_size {
        let addr = fdt_addr - rounded_size;
        if guest_mem.address_in_range(addr) {
            return Some(addr);
        }
    }
    None
}

/// The device tree window `[fdt, fdt + FDT_MAX_SIZE)` either ends exactly at
/// the last byte of the first DRAM region, starting at an address of guest
/// memory, or the tree sits at `DRAM_MEM_START`.
pub proof fn lemma_fdt_addr(regions: Seq<GuestRegion>)
    requires
        regions_wf(regions),
        has_dram(regions),
    ensures
        ({
            let fdt = spec_fdt_addr(regions);
            ||| (fdt + FDT_MAX_SIZE - 1 == first_dram(regions).spec_last_addr()
                && spec_address_in_range(regions, fdt as int))
            ||| fdt == DRAM_MEM_START
        }),
{
    lemma_first_dram(regions);
    let i = choose|i: int| is_first_dram(regions, i);
    assert(regions[i].valid());
}

/// The device tree goes at the last address of the first DRAM region less
/// `FDT_MAX_SIZE - 1` (so that its window ends at the last byte of that
/// region) whenever that address exists and is guest memory, wherever in the
/// address space it lies; only otherwise does it go at the start of RAM.
pub proof fn lemma_fdt_addr_at_end_of_dram(regions: Seq<GuestRegion>)
    requires
        regions_wf(regions),
        has_dram(regions),
    ensures
        ({
            let dram = first_dram(regions);
            let slot = dram.start + dram.len - 1 - 0x1f_ffff;
            &&& slot >= 0 && spec_address_in_range(regions, slot) ==> spec_fdt_addr(regions) == slot
            &&& !(slot >= 0 && spec_address_in_range(regions, slot)) ==> spec_fdt_addr(regions)
                == 0x8000_0000
        }),
{
    lemma_first_dram(regions);
    let i = choose|i: int| is_first_dram(regions, i);
    assert(regions[i].valid());
}

/// The initrd goes right below the device tree, at the address of the tree
/// less the initrd size rounded up to whole pages (`rounded`: the multiple of
/// 4096 in `[initrd_size, initrd_size + 4096)`), whenever that address exists
/// and is guest memory, wherever in the address space it lies; only otherwise
/// is there no place for it.
pub proof fn lemma_initrd_addr_below_fdt(regions: Seq<GuestRegion>, initrd_size: int, rounded: int)
    requires
        has_dram(regions),
        initrd_size >= 0,
        rounded % 4096 == 0,
        initrd_size <= rounded < initrd_size + 4096,
    ensures
        ({
            let fdt = spec_fdt_addr(regions) as int;
            &&& fdt >= rounded && spec_address_in_range(regions, fdt - rounded)
                ==> spec_initrd_load_addr(regions, initrd_size) == Some((fdt - rounded) as u64)
            &&& !(fdt >= rounded && spec_address_in_range(regions, fdt - rounded))
                ==> spec_initrd_load_addr(regions, initrd_size) is None
        }),
{
    let a = spec_align_up(initrd_size, GUEST_PAGE_SIZE as int);
    lemma_initrd_below_fdt(regions, initrd_size);
    if initrd_size % 4096 != 0 {
        assert((initrd_size + (4096 - initrd_size % 4096)) % 4096 == 0) by (nonlinear_arith)
            requires
                initrd_size >= 0,
        ;
    }
    assert(a % 4096 == 0 && initrd_size <= a < initrd_size + 4096);
    assert(a == rounded) by (nonlinear_arith)
        requires
            a % 4096 == 0,
            rounded % 4096 == 0,
            initrd_size <= a < initrd_size + 4096,
            initrd_size <= rounded < initrd_size + 4096,
    {
        assert(a == 4096 * (a / 4096));
        assert(rounded == 4096 * (rounded / 4096));
    }
}

/// A placed initrd ends exactly where the device tree starts: its window
/// `[addr, addr + rounded)` holds the whole initrd, is a whole number of
/// pages, starts in guest memory and does not overlap the device tree.
pub proof fn lemma_initrd_below_fdt(regions: Seq<GuestRegion>, initrd_size: int)
    requires
        has_dram(regions),
        initrd_size >= 0,
    ensures
        spec_initrd_load_addr(regions, initrd_size) matches Some(addr) ==> {
            let rounded = spec_align_up(initrd_size, GUEST_PAGE_SIZE as int);
            &&& addr + rounded == spec_fdt_addr(regions)
            &&& initrd_size <= rounded
            &&& rounded % (GUEST_PAGE_SIZE as int) == 0
            &&& spec_address_in_range(regions, addr as int)
        },
{
    let rounded = spec_align_up(initrd_size, GUEST_PAGE_SIZE as int);
    if initrd_size % (GUEST_PAGE_SIZE as int) != 0 {
        assert((initrd_size + (GUEST_PAGE_SIZE as int - initrd_size % (GUEST_PAGE_SIZE as int)))
            % (GUEST_PAGE_SIZE as int) == 0) by (nonlinear_arith)
            requires
                initrd_size >= 0,
        ;
    }
}

} // verus!
