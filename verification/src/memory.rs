//! A model of the guest physical memory: an ordered collection of
//! non-overlapping regions, each tagged with the kind of memory it holds.

use vstd::prelude::*;

verus! {

/// The kind of memory that a guest region holds.
#[derive(Clone, Copy, Debug, PartialEq, Eq, Structural)]
pub enum GuestRegionType {
    /// Regular guest RAM.
    Dram,
    /// Memory that can be plugged into the guest at run time.
    Hotpluggable,
}

/// One contiguous range of guest physical memory.
#[derive(Clone, Copy, Debug, PartialEq, Eq, Structural)]
pub struct GuestRegion {
    /// First guest physical address of the region.
    pub start: u64,
    /// Length of the region in bytes.
    pub len: u64,
    /// The kind of memory of the region.
    pub region_type: GuestRegionType,
}

impl GuestRegion {
    /// The last address of the region (inclusive).
    pub open spec fn spec_last_addr(self) -> int {
        self.start + self.len - 1
    }

    /// A region is valid when it is not empty and its last address is representable.
    pub open spec fn valid(self) -> bool {
        &&& self.len > 0
        &&& self.start + self.len - 1 <= u64::MAX
    }

    /// Whether `addr` lies inside the region.
    pub open spec fn contains(self, addr: int) -> bool {
        self.start <= addr <= self.spec_last_addr()
    }

    /// Returns the last address of the region (inclusive).
    pub fn last_addr(&self) -> (r: u64)
        requires
            self.valid(),
        ensures
            r == self.spec_last_addr(),
    {
        self.start + (self.len - 1)
    }
}

/// Why a collection of regions cannot form a guest memory.
#[derive(Clone, Copy, Debug, PartialEq, Eq, Structural)]
pub enum GuestRegionCollectionError {
    /// No region was given.
    NoMemoryRegion,
    /// A region is empty or its last address does not fit in 64 bits.
    InvalidRegion,
    /// The regions are not ordered by their start address.
    UnsortedMemoryRegions,
    /// Two neighbouring regions overlap.
    MemoryRegionOverlap,
}

/// The regions of one window of two neighbours: the error it raises, if any.
pub open spec fn window_error(prev: GuestRegion, next: GuestRegion) -> Option<
    GuestRegionCollectionError,
> {
    if prev.start > next.start {
        Some(GuestRegionCollectionError::UnsortedMemoryRegions)
    } else if prev.spec_last_addr() >= next.start {
        Some(GuestRegionCollectionError::MemoryRegionOverlap)
    } else {
        None
    }
}

/// The outcome of checking the windows `i, i + 1` of `s` from `i` on, in order.
pub open spec fn windows_check(s: Seq<GuestRegion>, i: int) -> Result<(), GuestRegionCollectionError>
    decreases s.len() - i,
{
    if i < 0 || i + 1 >= s.len() {
        Ok(())
    } else {
        match window_error(s[i], s[i + 1]) {
            Some(e) => Err(e),
            None => windows_check(s, i + 1),
        }
    }
}

/// The outcome of building a guest memory from `s`.
pub open spec fn regions_check(s: Seq<GuestRegion>) -> Result<(), GuestRegionCollectionError> {
    if s.len() == 0 {
        Err(GuestRegionCollectionError::NoMemoryRegion)
    } else if exists|i: int| 0 <= i < s.len() && !(#[trigger] s[i]).valid() {
        Err(GuestRegionCollectionError::InvalidRegion)
    } else {
        windows_check(s, 0)
    }
}

/// `a` ends before `b` starts.
pub open spec fn ends_before(a: GuestRegion, b: GuestRegion) -> bool {
    a.spec_last_addr() < b.start
}

/// Regions form a guest memory: at least one, each valid, ordered and pairwise apart.
pub open spec fn regions_wf(s: Seq<GuestRegion>) -> bool {
    &&& s.len() > 0
    &&& forall|i: int| 0 <= i < s.len() ==> (#[trigger] s[i]).valid()
    &&& forall|i: int, j: int|
        0 <= i < j < s.len() ==> #[trigger] ends_before(s[i], s[j])
}

/// Whether `addr` lies in one of the regions of `s`.
pub open spec fn spec_address_in_range(s: Seq<GuestRegion>, addr: int) -> bool {
    exists|i: int| 0 <= i < s.len() && (#[trigger] s[i]).contains(addr)
}

/// `i` is the index of the first DRAM region of `s`.
pub open spec fn is_first_dram(s: Seq<GuestRegion>, i: int) -> bool {
    &&& 0 <= i < s.len()
    &&& s[i].region_type == GuestRegionType::Dram
    &&& forall|j: int| 0 <= j < i ==> (#[trigger] s[j]).region_type != GuestRegionType::Dram
}

/// Whether `s` holds a DRAM region.
pub open spec fn has_dram(s: Seq<GuestRegion>) -> bool {
    exists|i: int| 0 <= i < s.len() && (#[trigger] s[i]).region_type == GuestRegionType::Dram
}

/// The first DRAM region of `s` (meaningful when `has_dram(s)`).
pub open spec fn first_dram(s: Seq<GuestRegion>) -> GuestRegion {
    s[choose|i: int| is_first_dram(s, i)]
}

/// A `has_dram` sequence has exactly one first DRAM region.
pub proof fn lemma_first_dram(s: Seq<GuestRegion>)
    requires
        has_dram(s),
    ensures
        exists|i: int| is_first_dram(s, i),
        forall|i: int, j: int| is_first_dram(s, i) && is_first_dram(s, j) ==> i == j,
        forall|i: int| is_first_dram(s, i) ==> first_dram(s) == s[i],
{
    let k = choose|k: int| 0 <= k < s.len() && (#[trigger] s[k]).region_type == GuestRegionType::Dram;
    lemma_first_dram_below(s, k);
}

proof fn lemma_first_dram_below(s: Seq<GuestRegion>, k: int)
    requires
        0 <= k < s.len(),
        s[k].region_type == GuestRegionType::Dram,
    ensures
        exists|i: int| is_first_dram(s, i),
    decreases k,
{
    if exists|j: int| 0 <= j < k && (#[trigger] s[j]).region_type == GuestRegionType::Dram {
        let j = choose|j: int| 0 <= j < k && (#[trigger] s[j]).region_type == GuestRegionType::Dram;
        lemma_first_dram_below(s, j);
    } else {
        assert(is_first_dram(s, k));
    }
}

/// The guest physical memory: an ordered collection of non-overlapping regions.
pub struct GuestMemoryLayout {
    regions: Vec<GuestRegion>,
}

impl View for GuestMemoryLayout {
    type V = Seq<GuestRegion>;

    closed spec fn view(&self) -> Seq<GuestRegion> {
        self.regions@
    }
}

impl GuestMemoryLayout {
    #[verifier::type_invariant]
    closed spec fn inv(self) -> bool {
        regions_wf(self.regions@)
    }

    /// Builds a guest memory from regions ordered by their start address.
    ///
    /// Fails when no region is given, when a region is empty or ends past the
    /// 64-bit address space, and at the first pair of neighbours that is out of
    /// order or overlaps.
    pub fn from_regions(regions: Vec<GuestRegion>) -> (r: Result<Self, GuestRegionCollectionError>)
        ensures
            match regions_check(regions@) {
                Ok(()) => r matches Ok(m) && m@ == regions@,
                Err(e) => r == Err::<Self, GuestRegionCollectionError>(e),
            },
    {
        let n = regions.len();
        if n == 0 {
            return Err(GuestRegionCollectionError::NoMemoryRegion);
        }
        let mut i: usize = 0;
        while i < n
            invariant
                n == regions@.len(),
                0 <= i <= n,
                forall|k: int| 0 <= k < i ==> (#[trigger] regions@[k]).valid(),
            decreases n - i,
        {
            let reg = regions[i];
            if reg.len == 0 || reg.len - 1 > u64::MAX - reg.start {
                assert(!regions@[i as int].valid());
                return Err(GuestRegionCollectionError::InvalidRegion);
            }
            i = i + 1;
        }
        let mut j: usize = 0;
        while j + 1 < n
            invariant
                n == regions@.len(),
                n > 0,
                0 <= j < n,
                forall|k: int| 0 <= k < n ==> (#[trigger] regions@[k]).valid(),
                windows_check(regions@, 0) == windows_check(regions@, j as int),
                forall|k: int| 0 <= k < j ==> #[trigger] ends_before(regions@[k], regions@[k + 1]),
            decreases n - j,
        {
            let prev = regions[j];
            let next = regions[j + 1];
            if prev.start > next.start {
                return Err(GuestRegionCollectionError::UnsortedMemoryRegions);
            }
            if prev.last_addr() >= next.start {
                return Err(GuestRegionCollectionError::MemoryRegionOverlap);
            }
            assert(ends_before(regions@[j as int], regions@[j + 1]));
            j = j + 1;
        }
        proof {
            lemma_chain_ordered(regions@);
        }
        Ok(GuestMemoryLayout { regions })
    }

    /// The regions of the guest memory, ordered by address.
    pub fn regions(&self) -> (r: &Vec<GuestRegion>)
        ensures
            r@ == self@,
            regions_wf(self@),
    {
        proof {
            use_type_invariant(self);
        }
        &self.regions
    }

    /// Whether `addr` lies in one of the regions of the guest memory.
    pub fn address_in_range(&self, addr: u64) -> (r: bool)
        ensures
            r == spec_address_in_range(self@, addr as int),
    {
        let n = self.regions.len();
        let mut i: usize = 0;
        while i < n
            invariant
                n == self@.len(),
                self@ == self.regions@,
                0 <= i <= n,
                forall|k: int| 0 <= k < i ==> !(#[trigger] self@[k]).contains(addr as int),
            decreases n - i,
        {
            let reg = self.regions[i];
            if reg.start <= addr && addr - reg.start < reg.len {
                assert(self@[i as int].contains(addr as int));
                return true;
            }
            i = i + 1;
        }
        false
    }

    /// The first DRAM region of the guest memory, if there is one.
    pub fn first_dram_region(&self) -> (r: Option<GuestRegion>)
        ensures
            match r {
                Some(reg) => has_dram(self@) && reg == first_dram(self@) && reg.valid(),
                None => !has_dram(self@),
            },
    {
        proof {
            use_type_invariant(self);
        }
        let n = self.regions.len();
        let mut i: usize = 0;
        while i < n
            invariant
                n == self@.len(),
                self@ == self.regions@,
                regions_wf(self@),
                0 <= i <= n,
                forall|k: int|
                    0 <= k < i ==> (#[trigger] self@[k]).region_type != GuestRegionType::Dram,
            decreases n - i,
        {
            let reg = self.regions[i];
            if reg.region_type == GuestRegionType::Dram {
                proof {
                    assert(self@[i as int].valid());
                    assert(is_first_dram(self@, i as int));
                    assert(has_dram(self@));
                    lemma_first_dram(self@);
                }
                return Some(reg);
            }
            i = i + 1;
        }
        None
    }
}

/// Neighbours in order and apart make every pair in order and apart.
proof fn lemma_chain_ordered(s: Seq<GuestRegion>)
    requires
        forall|k: int| 0 <= k < s.len() ==> (#[trigger] s[k]).valid(),
        forall|k: int| 0 <= k < s.len() - 1 ==> #[trigger] ends_before(s[k], s[k + 1]),
    ensures
        forall|i: int, j: int| 0 <= i < j < s.len() ==> #[trigger] ends_before(s[i], s[j]),
{
    assert forall|i: int, j: int| 0 <= i < j < s.len() implies #[trigger] ends_before(s[i], s[j]) by {
        lemma_chain_step(s, i, j);
    }
}

proof fn lemma_chain_step(s: Seq<GuestRegion>, i: int, j: int)
    requires
        0 <= i < j < s.len(),
        forall|k: int| 0 <= k < s.len() ==> (#[trigger] s[k]).valid(),
        forall|k: int| 0 <= k < s.len() - 1 ==> #[trigger] ends_before(s[k], s[k + 1]),
    ensures
        ends_before(s[i], s[j]),
    decreases j - i,
{
    if j > i + 1 {
        lemma_chain_step(s, i, j - 1);
        let k = j - 1;
        assert(s[k].valid());
        assert(ends_before(s[k], s[k + 1]));
        assert(k + 1 == j);
    } else {
        assert(ends_before(s[i], s[i + 1]));
    }
}

} // verus!
