//! The MMIO devices of the guest as the device tree sees them.

use vstd::prelude::*;

verus! {

/// Where an MMIO device sits and which interrupt it raises.
#[derive(Clone, Copy, Debug, PartialEq, Eq, Structural)]
pub struct MmioDeviceInfo {
    /// Start of the MMIO window of the device.
    pub addr: u64,
    /// Length of the MMIO window of the device.
    pub len: u64,
    /// The interrupt line of the device, if it has one.
    pub gsi: Option<u32>,
}

/// The MMIO devices of the guest: an optional serial console and the virtio
/// devices, in the order they were registered.
#[derive(Debug)]
pub struct MmioDevices {
    /// The serial console, if there is one.
    pub serial: Option<MmioDeviceInfo>,
    /// The virtio devices.
    pub virtio: Vec<MmioDeviceInfo>,
}

/// `x` inserted into the address-ordered `s` after every device whose address
/// is not above that of `x`.
pub open spec fn spec_insert_by_addr(s: Seq<MmioDeviceInfo>, x: MmioDeviceInfo) -> Seq<MmioDeviceInfo>
    decreases s.len(),
{
    if s.len() == 0 {
        seq![x]
    } else if s.last().addr <= x.addr {
        s.push(x)
    } else {
        spec_insert_by_addr(s.drop_last(), x).push(s.last())
    }
}

/// `s` ordered by address; devices with the same address keep their order.
pub open spec fn spec_sort_by_addr(s: Seq<MmioDeviceInfo>) -> Seq<MmioDeviceInfo>
    decreases s.len(),
{
    if s.len() == 0 {
        s
    } else {
        spec_insert_by_addr(spec_sort_by_addr(s.drop_last()), s.last())
    }
}

/// Ordered by address, lowest first.
pub open spec fn sorted_by_addr(s: Seq<MmioDeviceInfo>) -> bool {
    forall|i: int, j: int| 0 <= i < j < s.len() ==> #[trigger] s[i].addr <= #[trigger] s[j].addr
}

proof fn lemma_insert_at(s: Seq<MmioDeviceInfo>, x: MmioDeviceInfo, k: int)
    requires
        0 <= k <= s.len(),
        forall|i: int| k <= i < s.len() ==> (#[trigger] s[i]).addr > x.addr,
        k == 0 || s[k - 1].addr <= x.addr,
    ensures
        spec_insert_by_addr(s, x) == s.take(k) + seq![x] + s.skip(k),
    decreases s.len(),
{
    if s.len() == 0 {
        assert(s.take(k) + seq![x] + s.skip(k) =~= seq![x]);
    } else if k == s.len() {
        assert(s.take(k) + seq![x] + s.skip(k) =~= s.push(x));
    } else {
        let p = s.drop_last();
        assert(s.last().addr > x.addr);
        lemma_insert_at(p, x, k);
        assert(s.take(k) + seq![x] + s.skip(k) =~= (p.take(k) + seq![x] + p.skip(k)).push(s.last()));
    }
}

/// Inserting into an ordered sequence keeps it ordered and adds exactly `x`.
pub proof fn lemma_insert_sorted(s: Seq<MmioDeviceInfo>, x: MmioDeviceInfo)
    requires
        sorted_by_addr(s),
    ensures
        sorted_by_addr(spec_insert_by_addr(s, x)),
        spec_insert_by_addr(s, x).to_multiset() =~= s.to_multiset().insert(x),
        spec_insert_by_addr(s, x).len() == s.len() + 1,
    decreases s.len(),
{
    broadcast use vstd::seq_lib::group_to_multiset_ensures;

    if s.len() == 0 {
        assert(seq![x] =~= Seq::<MmioDeviceInfo>::empty().push(x));
    } else if s.last().addr <= x.addr {
    } else {
        let p = s.drop_last();
        lemma_insert_sorted(p, x);
        let q = spec_insert_by_addr(p, x);
        assert(s =~= p.push(s.last()));
        assert forall|i: int| 0 <= i < q.len() implies (#[trigger] q[i]).addr <= s.last().addr by {
            assert(q.to_multiset().count(q[i]) > 0);
            if q[i] != x {
                assert(p.to_multiset().count(q[i]) > 0);
                let k = choose|k: int| 0 <= k < p.len() && p[k] == q[i];
                assert(s[k] == p[k]);
            }
        }
    }
}

/// Ordering by address gives an ordered rearrangement of the same devices.
pub proof fn lemma_sort_by_addr(s: Seq<MmioDeviceInfo>)
    ensures
        sorted_by_addr(spec_sort_by_addr(s)),
        spec_sort_by_addr(s).to_multiset() =~= s.to_multiset(),
        spec_sort_by_addr(s).len() == s.len(),
    decreases s.len(),
{
    broadcast use vstd::seq_lib::group_to_multiset_ensures;

    if s.len() > 0 {
        lemma_sort_by_addr(s.drop_last());
        lemma_insert_sorted(spec_sort_by_addr(s.drop_last()), s.last());
        assert(s =~= s.drop_last().push(s.last()));
    }
}

/// Returns the devices ordered by address; devices with the same address keep
/// their order.
pub fn sort_by_addr(devices: &Vec<MmioDeviceInfo>) -> (r: Vec<MmioDeviceInfo>)
    ensures
        r@ == spec_sort_by_addr(devices@),
{
    let mut sorted: Vec<MmioDeviceInfo> = Vec::new();
    let n = devices.len();
    let mut i: usize = 0;
    while i < n
        invariant
            n == devices@.len(),
            0 <= i <= n,
            sorted@ == spec_sort_by_addr(devices@.take(i as int)),
        decreases n - i,
    {
        let x = devices[i];
        let mut k = sorted.len();
        while k > 0 && sorted[k - 1].addr > x.addr
            invariant
                0 <= k <= sorted@.len(),
                forall|j: int| k <= j < sorted@.len() ==> (#[trigger] sorted@[j]).addr > x.addr,
            decreases k,
        {
            k = k - 1;
        }
        proof {
            lemma_insert_at(sorted@, x, k as int);
            assert(devices@.take(i + 1).drop_last() =~= devices@.take(i as int));
        }
        sorted.insert(k, x);
        proof {
            assert(sorted@ =~= spec_sort_by_addr(devices@.take(i + 1)));
        }
        i = i + 1;
    }
    proof {
        assert(devices@.take(n as int) =~= devices@);
    }
    sorted
}

} // verus!
