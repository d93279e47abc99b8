//! Properties of the whole generated device tree.

use vstd::prelude::*;

use crate::devices::MmioDeviceInfo;
use crate::fdt::{
    spec_aia_nodes, spec_chosen_node, spec_cpu_node, spec_cpu_nodes, spec_cpus_node,
    spec_devices_nodes, spec_fdt_items, spec_irq_props, spec_memory_node, spec_serial_node,
    spec_virtio_node, spec_virtio_nodes, InitrdConfig, RiscvPlatformFeatures,
};
use crate::fdt_writer::{spec_hex, FdtItem, FdtValue};
use crate::layout::{
    AIA_APLIC_MEM_SIZE, AIA_APLIC_MEM_START, AIA_IMSIC_MEM_SIZE, AIA_IMSIC_MEM_START,
    AIA_IMSIC_NUM_IDS, GSI_LEGACY_NUM,
};
use crate::memory::GuestRegion;

verus! {

/// The state of a writer between items: the number of open nodes and whether
/// the last item closed a node; `None` once an item breaks the rules.
pub open spec fn scan_step(state: Option<(int, bool)>, item: FdtItem) -> Option<(int, bool)> {
    match state {
        None => None,
        Some((depth, ended)) => match item {
            FdtItem::BeginNode(_) => Some((depth + 1, false)),
            FdtItem::EndNode => if depth >= 1 {
                Some((depth - 1, true))
            } else {
                None
            },
            FdtItem::Property(_, _) => if depth == 0 || ended {
                None
            } else {
                Some((depth, ended))
            },
        },
    }
}

/// The state after `items`, starting from `state`.
pub open spec fn scan(state: Option<(int, bool)>, items: Seq<FdtItem>) -> Option<(int, bool)>
    decreases items.len(),
{
    if items.len() == 0 {
        state
    } else {
        scan_step(scan(state, items.drop_last()), items.last())
    }
}

/// The items obey the rules that `vm_fdt` enforces on the nesting of a tree: a
/// property belongs to an open node and comes before the child nodes of that
/// node, every node closed was open, and every node is closed at the end. (The
/// limit of 64 open nodes, and the rules on names and sizes, are stated by
/// the writer's own contracts.)
pub open spec fn well_structured(items: Seq<FdtItem>) -> bool {
    scan(Some((0, false)), items) matches Some((depth, _)) && depth == 0
}

/// Scanning a concatenation scans the parts in turn.
pub proof fn lemma_scan_concat(state: Option<(int, bool)>, a: Seq<FdtItem>, b: Seq<FdtItem>)
    ensures
        scan(state, a + b) == scan(scan(state, a), b),
    decreases b.len(),
{
    if b.len() == 0 {
        assert(a + b =~= a);
    } else {
        lemma_scan_concat(state, a, b.drop_last());
        assert((a + b).drop_last() =~= a + b.drop_last());
    }
}

/// A complete node: from depth `d`, it comes back to depth `d` with a node
/// just closed.
pub open spec fn closes_node(items: Seq<FdtItem>) -> bool {
    forall|d: int, e: bool| d >= 0 ==> #[trigger] scan(Some((d, e)), items) == Some((d, true))
}

proof fn lemma_props_keep(d: int, items: Seq<FdtItem>)
    requires
        d >= 1,
        forall|i: int| 0 <= i < items.len() ==> (#[trigger] items[i]) is Property,
    ensures
        scan(Some((d, false)), items) == Some((d, false)),
    decreases items.len(),
{
    if items.len() > 0 {
        lemma_props_keep(d, items.drop_last());
        assert(items[items.len() - 1] is Property);
    }
}

/// A node made of a begin, properties, complete child nodes and an end.
proof fn lemma_node(head: Seq<FdtItem>, props: Seq<FdtItem>, children: Seq<FdtItem>)
    requires
        head.len() == 1,
        head[0] is BeginNode,
        forall|i: int| 0 <= i < props.len() ==> (#[trigger] props[i]) is Property,
        closes_node(children) || children.len() == 0,
    ensures
        closes_node(head + props + children + seq![FdtItem::EndNode]),
{
    assert forall|d: int, e: bool| d >= 0 implies #[trigger] scan(
        Some((d, e)),
        head + props + children + seq![FdtItem::EndNode],
    ) == Some((d, true)) by {
        lemma_scan_concat(Some((d, e)), head, props);
        lemma_scan_concat(Some((d, e)), head + props, children);
        lemma_scan_concat(Some((d, e)), head + props + children, seq![FdtItem::EndNode]);
        reveal_with_fuel(scan, 2);
        assert(head.drop_last() =~= Seq::<FdtItem>::empty());
        assert(scan(Some((d, e)), head) == Some((d + 1, false)));
        lemma_props_keep(d + 1, props);
        if children.len() == 0 {
            assert(scan(Some((d + 1, false)), children) == Some((d + 1, false)));
        }
        assert(seq![FdtItem::EndNode].drop_last() =~= Seq::<FdtItem>::empty());
    }
}

/// Complete nodes one after the other form a complete node sequence.
proof fn lemma_closes_concat(a: Seq<FdtItem>, b: Seq<FdtItem>)
    requires
        closes_node(a) || a.len() == 0,
        closes_node(b) || b.len() == 0,
    ensures
        closes_node(a + b) || (a + b).len() == 0,
{
    if a.len() == 0 {
        assert(a + b =~= b);
    } else if b.len() == 0 {
        assert(a + b =~= a);
    } else {
        assert forall|d: int, e: bool| d >= 0 implies #[trigger] scan(Some((d, e)), a + b) == Some(
            (d, true),
        ) by {
            lemma_scan_concat(Some((d, e)), a, b);
            assert(scan(Some((d, e)), a) == Some((d, true)));
        }
    }
}

proof fn lemma_cpu_nodes_close(n: int, isa: Seq<char>)
    ensures
        closes_node(spec_cpu_nodes(n, isa)) || spec_cpu_nodes(n, isa).len() == 0,
    decreases n,
{
    if n > 0 {
        lemma_cpu_nodes_close(n - 1, isa);
        let c = spec_cpu_node(n - 1, isa);
        let intc = seq![c[7]] + c.subrange(8, 12) + Seq::<FdtItem>::empty() + seq![FdtItem::EndNode];
        lemma_node(seq![c[7]], c.subrange(8, 12), Seq::empty());
        assert(intc =~= c.subrange(7, 13));
        lemma_node(seq![c[0]], c.subrange(1, 7), c.subrange(7, 13));
        assert(c =~= seq![c[0]] + c.subrange(1, 7) + c.subrange(7, 13) + seq![FdtItem::EndNode]);
        lemma_closes_concat(spec_cpu_nodes(n - 1, isa), c);
    }
}

proof fn lemma_device_node_close(dev: MmioDeviceInfo, use_aia: bool, serial: bool)
    ensures
        closes_node(
            if serial {
                spec_serial_node(dev, use_aia)
            } else {
                spec_virtio_node(dev, use_aia)
            },
        ),
{
    let irq = spec_irq_props(dev, use_aia);
    let node = if serial {
        spec_serial_node(dev, use_aia)
    } else {
        spec_virtio_node(dev, use_aia)
    };
    let k: int = if serial {
        5
    } else {
        4
    };
    let props = node.subrange(1, k) + irq;
    assert forall|i: int| 0 <= i < props.len() implies (#[trigger] props[i]) is Property by {
        if i >= k - 1 {
            assert(props[i] == irq[i - (k - 1)]);
        }
    }
    lemma_node(seq![node[0]], props, Seq::empty());
    assert(node =~= seq![node[0]] + props + Seq::<FdtItem>::empty() + seq![FdtItem::EndNode]);
}

proof fn lemma_virtio_nodes_close(s: Seq<MmioDeviceInfo>, use_aia: bool)
    ensures
        closes_node(spec_virtio_nodes(s, use_aia)) || spec_virtio_nodes(s, use_aia).len() == 0,
    decreases s.len(),
{
    if s.len() > 0 {
        lemma_virtio_nodes_close(s.drop_last(), use_aia);
        lemma_device_node_close(s.last(), use_aia, false);
        lemma_closes_concat(spec_virtio_nodes(s.drop_last(), use_aia), spec_virtio_node(s.last(), use_aia));
    }
}

/// The generated device tree obeys the structural rules of `vm_fdt`: one root
/// node, every property inside a node and ahead of its children, and every
/// node closed.
pub proof fn lemma_fdt_well_structured(
    dram: GuestRegion,
    vcpu_count: u8,
    cmdline: Seq<char>,
    serial: Option<MmioDeviceInfo>,
    virtio: Seq<MmioDeviceInfo>,
    initrd: Option<InitrdConfig>,
    features: RiscvPlatformFeatures,
)
    ensures
        well_structured(
            spec_fdt_items(dram, vcpu_count, cmdline, serial, virtio, initrd, features),
        ),
{
    let items = spec_fdt_items(dram, vcpu_count, cmdline, serial, virtio, initrd, features);
    // cpus
    let cpus = spec_cpus_node(vcpu_count, features.isa);
    let cpu_children = spec_cpu_nodes(vcpu_count as int, crate::fdt::spec_isa_string(features.isa));
    lemma_cpu_nodes_close(vcpu_count as int, crate::fdt::spec_isa_string(features.isa));
    lemma_node(cpus.subrange(0, 1), cpus.subrange(1, 4), cpu_children);
    assert(cpus =~= cpus.subrange(0, 1) + cpus.subrange(1, 4) + cpu_children + seq![FdtItem::EndNode]);
    // memory
    let mem = spec_memory_node(dram);
    lemma_node(mem.subrange(0, 1), mem.subrange(1, 3), Seq::empty());
    assert(mem =~= mem.subrange(0, 1) + mem.subrange(1, 3) + Seq::<FdtItem>::empty() + seq![FdtItem::EndNode]);
    // chosen
    let chosen = spec_chosen_node(cmdline, serial, initrd);
    let chosen_props = chosen.subrange(1, chosen.len() - 1);
    assert forall|i: int| 0 <= i < chosen_props.len() implies (#[trigger] chosen_props[i]) is Property by {}
    lemma_node(chosen.subrange(0, 1), chosen_props, Seq::empty());
    assert(chosen =~= chosen.subrange(0, 1) + chosen_props + Seq::<FdtItem>::empty() + seq![FdtItem::EndNode]);
    // aia
    let aia = spec_aia_nodes(vcpu_count);
    lemma_node(aia.subrange(0, 1), aia.subrange(1, 10), Seq::empty());
    lemma_node(aia.subrange(11, 12), aia.subrange(12, 20), Seq::empty());
    assert(aia.subrange(0, 11) =~= aia.subrange(0, 1) + aia.subrange(1, 10) + Seq::<FdtItem>::empty() + seq![FdtItem::EndNode]);
    assert(aia.subrange(11, 21) =~= aia.subrange(11, 12) + aia.subrange(12, 20) + Seq::<FdtItem>::empty() + seq![FdtItem::EndNode]);
    lemma_closes_concat(aia.subrange(0, 11), aia.subrange(11, 21));
    assert(aia =~= aia.subrange(0, 11) + aia.subrange(11, 21));
    let aia_part = if features.aia {
        aia
    } else {
        Seq::<FdtItem>::empty()
    };
    // devices
    let serial_part = match serial {
        Some(info) => spec_serial_node(info, features.aia),
        None => Seq::<FdtItem>::empty(),
    };
    if let Some(info) = serial {
        lemma_device_node_close(info, features.aia, true);
    }
    lemma_virtio_nodes_close(crate::devices::spec_sort_by_addr(virtio), features.aia);
    let devs = spec_devices_nodes(serial, virtio, features.aia);
    lemma_closes_concat(serial_part, spec_virtio_nodes(crate::devices::spec_sort_by_addr(virtio), features.aia));
    // root
    let children = cpus + mem + chosen + aia_part + devs;
    lemma_closes_concat(cpus, mem);
    lemma_closes_concat(cpus + mem, chosen);
    lemma_closes_concat(cpus + mem + chosen, aia_part);
    lemma_closes_concat(cpus + mem + chosen + aia_part, devs);
    lemma_node(items.subrange(0, 1), items.subrange(1, 5), children);
    assert(items =~= items.subrange(0, 1) + items.subrange(1, 5) + children + seq![FdtItem::EndNode]);
    assert(scan(Some((0, false)), items) == Some((0int, true)));
}

/// With a serial console, the `stdout-path` of the `chosen` node is `/`
/// followed by the name of the uart node, and the uart node is a child of the
/// root node: the path names the console.
pub proof fn lemma_stdout_path_names_uart(
    dram: GuestRegion,
    vcpu_count: u8,
    cmdline: Seq<char>,
    info: MmioDeviceInfo,
    virtio: Seq<MmioDeviceInfo>,
    initrd: Option<InitrdConfig>,
    features: RiscvPlatformFeatures,
)
    ensures
        ({
            let items = spec_fdt_items(dram, vcpu_count, cmdline, Some(info), virtio, initrd, features);
            exists|i: int, j: int|
                0 <= i < items.len() && 0 <= j < items.len() && #[trigger] items[i]
                    == FdtItem::BeginNode(
                    "uart@"@ + spec_hex(info.addr as nat),
                ) && #[trigger] items[j] == FdtItem::Property(
                    "stdout-path"@,
                    FdtValue::Str(seq!['/'] + "uart@"@ + spec_hex(info.addr as nat)),
                ) && (scan(Some((0, false)), items.subrange(0, i)) matches Some((d, _)) && d == 1)
        }),
{
    reveal_strlit("/uart@");
    reveal_strlit("uart@");
    let serial = Some(info);
    let items = spec_fdt_items(dram, vcpu_count, cmdline, serial, virtio, initrd, features);
    let head = items.subrange(0, 5);
    let cpus = spec_cpus_node(vcpu_count, features.isa);
    let mem = spec_memory_node(dram);
    let chosen = spec_chosen_node(cmdline, serial, initrd);
    let aia_part = if features.aia {
        spec_aia_nodes(vcpu_count)
    } else {
        Seq::<FdtItem>::empty()
    };
    let devs = spec_devices_nodes(serial, virtio, features.aia);
    let prefix = head + cpus + mem + chosen + aia_part;
    let i = prefix.len() as int;
    let j = (5 + cpus.len() + mem.len() + 2) as int;
    assert(items =~= prefix + devs + seq![FdtItem::EndNode]);
    assert(items[i] == devs[0]);
    assert(items[j] == chosen[2]);
    assert(seq!['/'] + "uart@"@ =~= "/uart@"@);
    assert(items.subrange(0, i) =~= prefix);
    // the prefix ends at depth 1: the root is open and its earlier children closed
    lemma_well_structured_parts(dram, vcpu_count, cmdline, serial, virtio, initrd, features);
    lemma_scan_concat(Some((0, false)), head, cpus);
    lemma_scan_concat(Some((0, false)), head + cpus, mem);
    lemma_scan_concat(Some((0, false)), head + cpus + mem, chosen);
    lemma_scan_concat(Some((0, false)), head + cpus + mem + chosen, aia_part);
    lemma_props_keep(1, head.subrange(1, 5));
    reveal_with_fuel(scan, 2);
    assert(head.subrange(0, 1).drop_last() =~= Seq::<FdtItem>::empty());
    lemma_scan_concat(Some((0, false)), head.subrange(0, 1), head.subrange(1, 5));
    assert(head =~= head.subrange(0, 1) + head.subrange(1, 5));
    assert(scan(Some((0, false)), head) == Some((1int, false)));
}

/// The `chosen` node has a `stdout-path` exactly when there is a serial
/// console, and then the path is `/` followed by the name of the uart node
/// that the device nodes hold for that console.
pub proof fn lemma_chosen_stdout_path(
    cmdline: Seq<char>,
    serial: Option<MmioDeviceInfo>,
    virtio: Seq<MmioDeviceInfo>,
    initrd: Option<InitrdConfig>,
    use_aia: bool,
)
    ensures
        ({
            let c = spec_chosen_node(cmdline, serial, initrd);
            (exists|k: int|
                0 <= k < c.len() && (#[trigger] c[k] matches FdtItem::Property(n, _) && n
                    == "stdout-path"@)) <==> serial is Some
        }),
        serial matches Some(info) ==> {
            &&& spec_chosen_node(cmdline, serial, initrd)[2] == FdtItem::Property(
                "stdout-path"@,
                FdtValue::Str(seq!['/'] + "uart@"@ + spec_hex(info.addr as nat)),
            )
            &&& spec_devices_nodes(serial, virtio, use_aia)[0] == FdtItem::BeginNode(
                "uart@"@ + spec_hex(info.addr as nat),
            )
        },
{
    reveal_strlit("/uart@");
    reveal_strlit("uart@");
    reveal_strlit("stdout-path");
    reveal_strlit("bootargs");
    reveal_strlit("linux,initrd-start");
    reveal_strlit("linux,initrd-end");
    let c = spec_chosen_node(cmdline, serial, initrd);
    assert(seq!['/'] + "uart@"@ =~= "/uart@"@);
    if let Some(info) = serial {
        assert(c[2] matches FdtItem::Property(n, _) && n == "stdout-path"@);
        let devs = spec_devices_nodes(serial, virtio, use_aia);
        assert(devs[0] == spec_serial_node(info, use_aia)[0]);
    } else {
        assert forall|k: int| 0 <= k < c.len() implies !(#[trigger] c[k] matches FdtItem::Property(
            n,
            _,
        ) && n == "stdout-path"@) by {
            assert("bootargs"@.len() != "stdout-path"@.len());
            assert("linux,initrd-start"@.len() != "stdout-path"@.len());
            assert("linux,initrd-end"@.len() != "stdout-path"@.len());
        }
    }
}

/// The tree describes the RAM region it is given by a node `memory@<start>`
/// whose `reg` is the region's start and its whole 64-bit length, in two
/// 64-bit cells.
pub proof fn lemma_memory_node_describes_dram(
    dram: GuestRegion,
    vcpu_count: u8,
    cmdline: Seq<char>,
    serial: Option<MmioDeviceInfo>,
    virtio: Seq<MmioDeviceInfo>,
    initrd: Option<InitrdConfig>,
    features: RiscvPlatformFeatures,
)
    ensures
        ({
            let items = spec_fdt_items(dram, vcpu_count, cmdline, serial, virtio, initrd, features);
            exists|k: int|
                0 <= k && k + 3 < items.len() && #[trigger] items[k] == FdtItem::BeginNode(
                    "memory@"@ + spec_hex(dram.start as nat),
                ) && items[k + 1] == FdtItem::Property("device_type"@, FdtValue::Str("memory"@))
                    && items[k + 2] == FdtItem::Property(
                    "reg"@,
                    FdtValue::U64Array(seq![dram.start, dram.len]),
                ) && items[k + 3] == FdtItem::EndNode
        }),
        crate::fdt_writer::encode_value(FdtValue::U64Array(seq![dram.start, dram.len]))
            == crate::fdt_writer::be_u64(dram.start) + crate::fdt_writer::be_u64(dram.len),
{
    let items = spec_fdt_items(dram, vcpu_count, cmdline, serial, virtio, initrd, features);
    let cpus = spec_cpus_node(vcpu_count, features.isa);
    let k = (5 + cpus.len()) as int;
    let mem = spec_memory_node(dram);
    assert(items[k] == mem[0]);
    assert(items[k + 1] == mem[1]);
    assert(items[k + 2] == mem[2]);
    assert(items[k + 3] == mem[3]);
    let c = seq![dram.start, dram.len];
    assert(c.drop_last() =~= seq![dram.start]);
    assert(c.drop_last().drop_last() =~= Seq::<u64>::empty());
    reveal_with_fuel(crate::fdt_writer::be_u64_array, 3);
    assert(crate::fdt_writer::be_u64_array(c) =~= crate::fdt_writer::be_u64(dram.start)
        + crate::fdt_writer::be_u64(dram.len));
}

/// The child nodes of the root of the generated tree are complete nodes.
proof fn lemma_well_structured_parts(
    dram: GuestRegion,
    vcpu_count: u8,
    cmdline: Seq<char>,
    serial: Option<MmioDeviceInfo>,
    virtio: Seq<MmioDeviceInfo>,
    initrd: Option<InitrdConfig>,
    features: RiscvPlatformFeatures,
)
    ensures
        closes_node(spec_cpus_node(vcpu_count, features.isa)),
        closes_node(spec_memory_node(dram)),
        closes_node(spec_chosen_node(cmdline, serial, initrd)),
        features.aia ==> closes_node(spec_aia_nodes(vcpu_count)),
{
    let cpus = spec_cpus_node(vcpu_count, features.isa);
    let cpu_children = spec_cpu_nodes(vcpu_count as int, crate::fdt::spec_isa_string(features.isa));
    lemma_cpu_nodes_close(vcpu_count as int, crate::fdt::spec_isa_string(features.isa));
    lemma_node(cpus.subrange(0, 1), cpus.subrange(1, 4), cpu_children);
    assert(cpus =~= cpus.subrange(0, 1) + cpus.subrange(1, 4) + cpu_children + seq![FdtItem::EndNode]);
    let mem = spec_memory_node(dram);
    lemma_node(mem.subrange(0, 1), mem.subrange(1, 3), Seq::empty());
    assert(mem =~= mem.subrange(0, 1) + mem.subrange(1, 3) + Seq::<FdtItem>::empty() + seq![FdtItem::EndNode]);
    let chosen = spec_chosen_node(cmdline, serial, initrd);
    let chosen_props = chosen.subrange(1, chosen.len() - 1);
    assert forall|i: int| 0 <= i < chosen_props.len() implies (#[trigger] chosen_props[i]) is Property by {}
    lemma_node(chosen.subrange(0, 1), chosen_props, Seq::empty());
    assert(chosen =~= chosen.subrange(0, 1) + chosen_props + Seq::<FdtItem>::empty() + seq![FdtItem::EndNode]);
    let aia = spec_aia_nodes(vcpu_count);
    lemma_node(aia.subrange(0, 1), aia.subrange(1, 10), Seq::empty());
    lemma_node(aia.subrange(11, 12), aia.subrange(12, 20), Seq::empty());
    assert(aia.subrange(0, 11) =~= aia.subrange(0, 1) + aia.subrange(1, 10) + Seq::<FdtItem>::empty() + seq![FdtItem::EndNode]);
    assert(aia.subrange(11, 21) =~= aia.subrange(11, 12) + aia.subrange(12, 20) + Seq::<FdtItem>::empty() + seq![FdtItem::EndNode]);
    lemma_closes_concat(aia.subrange(0, 11), aia.subrange(11, 21));
    assert(aia =~= aia.subrange(0, 11) + aia.subrange(11, 21));
}

/// The in-kernel AIA device and the device tree describe the same interrupt
/// controller: the same number of MSI identities and of wired sources, the
/// APLIC at the address given to KVM, and an IMSIC window that holds exactly
/// the IMSIC pages given to KVM, one per vCPU in order, each vCPU's interrupt
/// controller listed in that order.
pub proof fn lemma_aia_tree_matches_kvm(vcpu_count: u8)
    ensures
        ({
            let a = crate::vm::spec_aia_device_attrs(vcpu_count);
            let n = spec_aia_nodes(vcpu_count);
            let cells = crate::fdt::spec_interrupts_extended(vcpu_count as int);
            &&& a[1].value == crate::vm::AiaAttrValue::U32(AIA_IMSIC_NUM_IDS)
            &&& n[7] == FdtItem::Property("riscv,num-ids"@, FdtValue::U32(AIA_IMSIC_NUM_IDS))
            &&& a[2].value == crate::vm::AiaAttrValue::U32(GSI_LEGACY_NUM)
            &&& n[18] == FdtItem::Property("riscv,num-sources"@, FdtValue::U32(GSI_LEGACY_NUM))
            &&& a[3].value == crate::vm::AiaAttrValue::U64(AIA_APLIC_MEM_START)
            &&& n[19] == FdtItem::Property(
                "reg"@,
                FdtValue::U64Array(seq![AIA_APLIC_MEM_START, AIA_APLIC_MEM_SIZE]),
            )
            &&& n[8] == FdtItem::Property(
                "reg"@,
                FdtValue::U64Array(
                    seq![AIA_IMSIC_MEM_START, (AIA_IMSIC_MEM_SIZE * vcpu_count) as u64],
                ),
            )
            &&& n[9] == FdtItem::Property("interrupts-extended"@, FdtValue::U32Array(cells))
            &&& cells.len() == 2 * vcpu_count
            &&& forall|i: int|
                0 <= i < vcpu_count ==> (#[trigger] a[4 + i]).value == crate::vm::AiaAttrValue::U64(
                    (AIA_IMSIC_MEM_START + AIA_IMSIC_MEM_SIZE * i) as u64,
                ) && AIA_IMSIC_MEM_START + AIA_IMSIC_MEM_SIZE * (i + 1) <= AIA_IMSIC_MEM_START
                    + AIA_IMSIC_MEM_SIZE * vcpu_count && cells[2 * i]
                    == crate::fdt::spec_cpu_intc_phandle(i)
        }),
{
    crate::vm::lemma_imsic_attrs(vcpu_count as int);
    let a = crate::vm::spec_aia_device_attrs(vcpu_count);
    let m = crate::vm::spec_imsic_attrs(vcpu_count as int);
    let cells = crate::fdt::spec_interrupts_extended(vcpu_count as int);
    assert forall|i: int| 0 <= i < vcpu_count implies (#[trigger] a[4 + i]).value
        == crate::vm::AiaAttrValue::U64((AIA_IMSIC_MEM_START + AIA_IMSIC_MEM_SIZE * i) as u64)
        && AIA_IMSIC_MEM_START + AIA_IMSIC_MEM_SIZE * (i + 1) <= AIA_IMSIC_MEM_START
        + AIA_IMSIC_MEM_SIZE * vcpu_count && cells[2 * i] == crate::fdt::spec_cpu_intc_phandle(i) by {
        assert(a[4 + i] == m[i]);
        assert((2 * i) % 2 == 0 && (2 * i) / 2 == i);
        assert(AIA_IMSIC_MEM_SIZE * (i + 1) <= AIA_IMSIC_MEM_SIZE * vcpu_count) by (nonlinear_arith)
            requires
                i + 1 <= vcpu_count,
        ;
    }
}

/// The phandle an item defines, if any.
pub open spec fn item_phandle(item: FdtItem) -> Seq<u32> {
    match item {
        FdtItem::Property(name, FdtValue::U32(v)) => if name == "phandle"@ {
            seq![v]
        } else {
            Seq::empty()
        },
        _ => Seq::empty(),
    }
}

/// The phandles that `items` define, in order.
pub open spec fn phandles(items: Seq<FdtItem>) -> Seq<u32>
    decreases items.len(),
{
    if items.len() == 0 {
        Seq::empty()
    } else {
        phandles(items.drop_last()) + item_phandle(items.last())
    }
}

/// The phandles of a concatenation are those of its parts.
pub proof fn lemma_phandles_concat(a: Seq<FdtItem>, b: Seq<FdtItem>)
    ensures
        phandles(a + b) == phandles(a) + phandles(b),
    decreases b.len(),
{
    if b.len() == 0 {
        assert(a + b =~= a);
        assert(phandles(a) + phandles(b) =~= phandles(a));
    } else {
        lemma_phandles_concat(a, b.drop_last());
        assert((a + b).drop_last() =~= a + b.drop_last());
        assert(phandles(a + b) =~= phandles(a) + phandles(b));
    }
}

proof fn lemma_property_names()
    ensures
        "#address-cells"@ != "phandle"@,
        "#size-cells"@ != "phandle"@,
        "timebase-frequency"@ != "phandle"@,
        "reg"@ != "phandle"@,
        "#interrupt-cells"@ != "phandle"@,
        "riscv,guest-index-bits"@ != "phandle"@,
        "riscv,num-ids"@ != "phandle"@,
        "msi-parent"@ != "phandle"@,
        "riscv,num-sources"@ != "phandle"@,
        "clock-frequency"@ != "phandle"@,
        "current-speed"@ != "phandle"@,
        "interrupt-parent"@ != "phandle"@,
{
    reveal_strlit("phandle");
    assert("phandle"@.len() == 7);
    reveal_strlit("#address-cells");
    assert("#address-cells"@.len() == 14);
    reveal_strlit("#size-cells");
    assert("#size-cells"@.len() == 11);
    reveal_strlit("timebase-frequency");
    assert("timebase-frequency"@.len() == 18);
    reveal_strlit("reg");
    assert("reg"@.len() == 3);
    reveal_strlit("#interrupt-cells");
    assert("#interrupt-cells"@.len() == 16);
    reveal_strlit("riscv,guest-index-bits");
    assert("riscv,guest-index-bits"@.len() == 22);
    reveal_strlit("riscv,num-ids");
    assert("riscv,num-ids"@.len() == 13);
    reveal_strlit("msi-parent");
    assert("msi-parent"@.len() == 10);
    reveal_strlit("riscv,num-sources");
    assert("riscv,num-sources"@.len() == 17);
    reveal_strlit("clock-frequency");
    assert("clock-frequency"@.len() == 15);
    reveal_strlit("current-speed");
    assert("current-speed"@.len() == 13);
    reveal_strlit("interrupt-parent");
    assert("interrupt-parent"@.len() == 16);
}

proof fn lemma_phandles_none(s: Seq<FdtItem>)
    requires
        forall|k: int| 0 <= k < s.len() ==> item_phandle(#[trigger] s[k]) == Seq::<u32>::empty(),
    ensures
        phandles(s) == Seq::<u32>::empty(),
    decreases s.len(),
{
    if s.len() > 0 {
        lemma_phandles_none(s.drop_last());
        assert(item_phandle(s[s.len() - 1]) == Seq::<u32>::empty());
        assert(phandles(s) =~= Seq::<u32>::empty());
    }
}

proof fn lemma_phandles_one(s: Seq<FdtItem>, m: int)
    requires
        0 <= m < s.len(),
        forall|k: int|
            0 <= k < s.len() && k != m ==> item_phandle(#[trigger] s[k]) == Seq::<u32>::empty(),
    ensures
        phandles(s) == item_phandle(s[m]),
{
    let a = s.take(m);
    let b = seq![s[m]];
    let c = s.skip(m + 1);
    assert(s =~= a + b + c);
    assert forall|k: int| 0 <= k < a.len() implies item_phandle(#[trigger] a[k]) == Seq::<u32>::empty() by {
        assert(a[k] == s[k]);
    }
    assert forall|k: int| 0 <= k < c.len() implies item_phandle(#[trigger] c[k]) == Seq::<u32>::empty() by {
        assert(c[k] == s[k + m + 1]);
    }
    lemma_phandles_none(a);
    lemma_phandles_none(c);
    lemma_phandles_concat(a, b);
    lemma_phandles_concat(a + b, c);
    reveal_with_fuel(phandles, 2);
    assert(b.drop_last() =~= Seq::<FdtItem>::empty());
    assert(phandles(s) =~= item_phandle(s[m]));
}

/// The phandles of the interrupt controllers of CPUs `0..n`.
pub open spec fn spec_cpu_phandles(n: int) -> Seq<u32> {
    Seq::new(n as nat, |i: int| crate::fdt::spec_cpu_intc_phandle(i))
}

proof fn lemma_cpu_node_phandles(i: int, isa: Seq<char>)
    requires
        0 <= i < 255,
    ensures
        phandles(spec_cpu_node(i, isa)) == seq![crate::fdt::spec_cpu_intc_phandle(i)],
{
    lemma_property_names();
    let s = spec_cpu_node(i, isa);
    assert forall|k: int| 0 <= k < s.len() && k != 10 implies item_phandle(#[trigger] s[k])
        == Seq::<u32>::empty() by {
        if k == 0 {
        } else if k == 1 {
        } else if k == 2 {
        } else if k == 3 {
        } else if k == 4 {
        } else if k == 5 {
        } else if k == 6 {
        } else if k == 7 {
        } else if k == 8 {
        } else if k == 9 {
        } else if k == 10 {
        } else if k == 11 {
        } else if k == 12 {
        } else if k == 13 {
        }
    }
    lemma_phandles_one(s, 10);
    reveal_strlit("phandle");
    assert(item_phandle(s[10]) =~= seq![crate::fdt::spec_cpu_intc_phandle(i)]);
}

proof fn lemma_cpu_nodes_phandles(n: int, isa: Seq<char>)
    requires
        0 <= n <= 255,
    ensures
        phandles(spec_cpu_nodes(n, isa)) == spec_cpu_phandles(n),
    decreases n,
{
    if n > 0 {
        lemma_cpu_nodes_phandles(n - 1, isa);
        lemma_phandles_concat(spec_cpu_nodes(n - 1, isa), spec_cpu_node(n - 1, isa));
        lemma_cpu_node_phandles(n - 1, isa);
        assert(spec_cpu_phandles(n) =~= spec_cpu_phandles(n - 1) + seq![
            crate::fdt::spec_cpu_intc_phandle(n - 1),
        ]);
    } else {
        assert(spec_cpu_phandles(n) =~= Seq::<u32>::empty());
    }
}

proof fn lemma_device_node_phandles(dev: MmioDeviceInfo, use_aia: bool, serial: bool)
    ensures
        phandles(
            if serial {
                spec_serial_node(dev, use_aia)
            } else {
                spec_virtio_node(dev, use_aia)
            },
        ) == Seq::<u32>::empty(),
{
    lemma_property_names();
    let s = if serial {
        spec_serial_node(dev, use_aia)
    } else {
        spec_virtio_node(dev, use_aia)
    };
    assert forall|k: int| 0 <= k < s.len() implies item_phandle(#[trigger] s[k])
        == Seq::<u32>::empty() by {
        if k == 0 {
        } else if k == 1 {
        } else if k == 2 {
        } else if k == 3 {
        } else if k == 4 {
        } else if k == 5 {
        } else if k == 6 {
        } else if k == 7 {
        }
    }
    lemma_phandles_none(s);
}

proof fn lemma_virtio_nodes_phandles(s: Seq<MmioDeviceInfo>, use_aia: bool)
    ensures
        phandles(spec_virtio_nodes(s, use_aia)) == Seq::<u32>::empty(),
    decreases s.len(),
{
    if s.len() > 0 {
        lemma_virtio_nodes_phandles(s.drop_last(), use_aia);
        lemma_phandles_concat(spec_virtio_nodes(s.drop_last(), use_aia), spec_virtio_node(s.last(), use_aia));
        lemma_device_node_phandles(s.last(), use_aia, false);
    }
}

proof fn lemma_aia_phandles(vcpu_count: u8)
    ensures
        phandles(spec_aia_nodes(vcpu_count)) == seq![crate::fdt::IMSIC_PHANDLE, crate::fdt::APLIC_PHANDLE],
{
    lemma_property_names();
    reveal_strlit("phandle");
    let aia = spec_aia_nodes(vcpu_count);
    let a = aia.subrange(0, 11);
    let b = aia.subrange(11, 21);
    assert forall|k: int| 0 <= k < a.len() && k != 5 implies item_phandle(#[trigger] a[k])
        == Seq::<u32>::empty() by {
        if k == 0 {
        } else if k == 1 {
        } else if k == 2 {
        } else if k == 3 {
        } else if k == 4 {
        } else if k == 5 {
        } else if k == 6 {
        } else if k == 7 {
        } else if k == 8 {
        } else if k == 9 {
        } else if k == 10 {
        }
    }
    assert forall|k: int| 0 <= k < b.len() && k != 5 implies item_phandle(#[trigger] b[k])
        == Seq::<u32>::empty() by {
        if k == 0 {
        } else if k == 1 {
        } else if k == 2 {
        } else if k == 3 {
        } else if k == 4 {
        } else if k == 5 {
        } else if k == 6 {
        } else if k == 7 {
        } else if k == 8 {
        } else if k == 9 {
        }
    }
    lemma_phandles_one(a, 5);
    lemma_phandles_one(b, 5);
    assert(aia =~= a + b);
    lemma_phandles_concat(a, b);
    assert(phandles(aia) =~= seq![crate::fdt::IMSIC_PHANDLE, crate::fdt::APLIC_PHANDLE]);
}

proof fn lemma_misc_phandles(
    dram: GuestRegion,
    vcpu_count: u8,
    cmdline: Seq<char>,
    serial: Option<MmioDeviceInfo>,
    virtio: Seq<MmioDeviceInfo>,
    initrd: Option<InitrdConfig>,
    features: RiscvPlatformFeatures,
)
    ensures
        phandles(spec_fdt_items(dram, vcpu_count, cmdline, serial, virtio, initrd, features).subrange(0, 5)) == Seq::<u32>::empty(),
        phandles(spec_cpus_node(vcpu_count, features.isa).subrange(0, 4)) == Seq::<u32>::empty(),
        phandles(spec_memory_node(dram)) == Seq::<u32>::empty(),
        phandles(spec_chosen_node(cmdline, serial, initrd)) == Seq::<u32>::empty(),
{
    lemma_property_names();
    let h = spec_fdt_items(dram, vcpu_count, cmdline, serial, virtio, initrd, features).subrange(0, 5);
    assert forall|k: int| 0 <= k < h.len() implies item_phandle(#[trigger] h[k]) == Seq::<u32>::empty() by {
        if k == 0 {
        } else if k == 1 {
        } else if k == 2 {
        } else if k == 3 {
        } else if k == 4 {
        }
    }
    lemma_phandles_none(h);
    let c = spec_cpus_node(vcpu_count, features.isa).subrange(0, 4);
    assert forall|k: int| 0 <= k < c.len() implies item_phandle(#[trigger] c[k]) == Seq::<u32>::empty() by {
        if k == 0 {
        } else if k == 1 {
        } else if k == 2 {
        } else if k == 3 {
        }
    }
    lemma_phandles_none(c);
    let m = spec_memory_node(dram);
    assert forall|k: int| 0 <= k < m.len() implies item_phandle(#[trigger] m[k]) == Seq::<u32>::empty() by {
        if k == 0 {
        } else if k == 1 {
        } else if k == 2 {
        } else if k == 3 {
        }
    }
    lemma_phandles_none(m);
    let ch = spec_chosen_node(cmdline, serial, initrd);
    assert forall|k: int| 0 <= k < ch.len() implies item_phandle(#[trigger] ch[k]) == Seq::<u32>::empty() by {
        if k == 0 {
        } else if k == 1 {
        } else if k == 2 {
        } else if k == 3 {
        } else if k == 4 {
        } else if k == 5 {
        }
    }
    lemma_phandles_none(ch);
}

/// Every phandle of the generated device tree is defined once: the CPU
/// interrupt controllers get `CPU_INTC_PHANDLE_BASE + i`, and with the AIA the
/// IMSIC and the APLIC get their own, smaller, phandles.
#[verifier::rlimit(50)]
pub proof fn lemma_fdt_phandles_unique(
    dram: GuestRegion,
    vcpu_count: u8,
    cmdline: Seq<char>,
    serial: Option<MmioDeviceInfo>,
    virtio: Seq<MmioDeviceInfo>,
    initrd: Option<InitrdConfig>,
    features: RiscvPlatformFeatures,
)
    ensures
        ({
            let p = phandles(spec_fdt_items(dram, vcpu_count, cmdline, serial, virtio, initrd, features));
            &&& p == spec_cpu_phandles(vcpu_count as int) + (if features.aia {
                seq![crate::fdt::IMSIC_PHANDLE, crate::fdt::APLIC_PHANDLE]
            } else {
                Seq::empty()
            })
            &&& p.no_duplicates()
        }),
{
    let isa = crate::fdt::spec_isa_string(features.isa);
    let items = spec_fdt_items(dram, vcpu_count, cmdline, serial, virtio, initrd, features);
    let head = items.subrange(0, 5);
    let cpus = spec_cpus_node(vcpu_count, features.isa);
    let mem = spec_memory_node(dram);
    let chosen = spec_chosen_node(cmdline, serial, initrd);
    let aia_part = if features.aia {
        spec_aia_nodes(vcpu_count)
    } else {
        Seq::<FdtItem>::empty()
    };
    let devs = spec_devices_nodes(serial, virtio, features.aia);
    let end = seq![FdtItem::EndNode];
    assert(items =~= head + cpus + mem + chosen + aia_part + devs + end);
    lemma_misc_phandles(dram, vcpu_count, cmdline, serial, virtio, initrd, features);
    reveal_with_fuel(phandles, 2);
    assert(end.drop_last() =~= Seq::<FdtItem>::empty());
    assert(phandles(end) =~= Seq::<u32>::empty());
    assert(phandles(Seq::<FdtItem>::empty()) =~= Seq::<u32>::empty());
    // cpus
    lemma_cpu_nodes_phandles(vcpu_count as int, isa);
    let cpus_head = cpus.subrange(0, 4);
    assert(cpus =~= cpus_head + spec_cpu_nodes(vcpu_count as int, isa) + end);
    lemma_phandles_concat(cpus_head, spec_cpu_nodes(vcpu_count as int, isa));
    lemma_phandles_concat(cpus_head + spec_cpu_nodes(vcpu_count as int, isa), end);
    assert(phandles(cpus) =~= spec_cpu_phandles(vcpu_count as int));
    // aia and devices
    lemma_aia_phandles(vcpu_count);
    let serial_part = match serial {
        Some(info) => spec_serial_node(info, features.aia),
        None => Seq::<FdtItem>::empty(),
    };
    if let Some(info) = serial {
        lemma_device_node_phandles(info, features.aia, true);
    }
    lemma_virtio_nodes_phandles(crate::devices::spec_sort_by_addr(virtio), features.aia);
    lemma_phandles_concat(serial_part, spec_virtio_nodes(crate::devices::spec_sort_by_addr(virtio), features.aia));
    assert(phandles(devs) =~= Seq::<u32>::empty());
    // whole tree
    lemma_phandles_concat(head, cpus);
    lemma_phandles_concat(head + cpus, mem);
    lemma_phandles_concat(head + cpus + mem, chosen);
    lemma_phandles_concat(head + cpus + mem + chosen, aia_part);
    lemma_phandles_concat(head + cpus + mem + chosen + aia_part, devs);
    lemma_phandles_concat(head + cpus + mem + chosen + aia_part + devs, end);
    let expected = spec_cpu_phandles(vcpu_count as int) + (if features.aia {
        seq![crate::fdt::IMSIC_PHANDLE, crate::fdt::APLIC_PHANDLE]
    } else {
        Seq::empty()
    });
    assert(phandles(items) =~= expected);
    assert forall|i: int, j: int|
        0 <= i < expected.len() && 0 <= j < expected.len() && i != j implies expected[i]
        != expected[j] by {
        let n = vcpu_count as int;
        if i < n && j < n {
        } else if i < n {
            assert(expected[i] >= 0x100);
        } else if j < n {
            assert(expected[j] >= 0x100);
        }
    }
}

/// The cells at even positions of `cells`.
pub open spec fn even_cells(cells: Seq<u32>) -> Seq<u32> {
    Seq::new(cells.len() / 2, |i: int| cells[2 * i])
}

/// The phandles an item refers to: those of `interrupt-parent` and
/// `msi-parent`, and the controller cells of `interrupts-extended`.
pub open spec fn item_refs(item: FdtItem) -> Seq<u32> {
    match item {
        FdtItem::Property(name, FdtValue::U32(v)) => if name == "interrupt-parent"@ || name
            == "msi-parent"@ {
            seq![v]
        } else {
            Seq::empty()
        },
        FdtItem::Property(name, FdtValue::U32Array(cells)) => if name == "interrupts-extended"@ {
            even_cells(cells)
        } else {
            Seq::empty()
        },
        _ => Seq::empty(),
    }
}

/// The phandles that `items` refer to, in order.
pub open spec fn phandle_refs(items: Seq<FdtItem>) -> Seq<u32>
    decreases items.len(),
{
    if items.len() == 0 {
        Seq::empty()
    } else {
        phandle_refs(items.drop_last()) + item_refs(items.last())
    }
}

/// The references of a concatenation are those of its parts.
pub proof fn lemma_refs_concat(a: Seq<FdtItem>, b: Seq<FdtItem>)
    ensures
        phandle_refs(a + b) == phandle_refs(a) + phandle_refs(b),
    decreases b.len(),
{
    if b.len() == 0 {
        assert(a + b =~= a);
        assert(phandle_refs(a) + phandle_refs(b) =~= phandle_refs(a));
    } else {
        lemma_refs_concat(a, b.drop_last());
        assert((a + b).drop_last() =~= a + b.drop_last());
        assert(phandle_refs(a + b) =~= phandle_refs(a) + phandle_refs(b));
    }
}

proof fn lemma_reference_names()
    ensures
        "#address-cells"@ != "interrupt-parent"@,
        "#address-cells"@ != "msi-parent"@,
        "#size-cells"@ != "interrupt-parent"@,
        "#size-cells"@ != "msi-parent"@,
        "timebase-frequency"@ != "interrupt-parent"@,
        "timebase-frequency"@ != "msi-parent"@,
        "reg"@ != "interrupt-parent"@,
        "reg"@ != "msi-parent"@,
        "#interrupt-cells"@ != "interrupt-parent"@,
        "#interrupt-cells"@ != "msi-parent"@,
        "phandle"@ != "interrupt-parent"@,
        "phandle"@ != "msi-parent"@,
        "riscv,guest-index-bits"@ != "interrupt-parent"@,
        "riscv,guest-index-bits"@ != "msi-parent"@,
        "riscv,num-ids"@ != "interrupt-parent"@,
        "riscv,num-ids"@ != "msi-parent"@,
        "riscv,num-sources"@ != "interrupt-parent"@,
        "riscv,num-sources"@ != "msi-parent"@,
        "clock-frequency"@ != "interrupt-parent"@,
        "clock-frequency"@ != "msi-parent"@,
        "current-speed"@ != "interrupt-parent"@,
        "current-speed"@ != "msi-parent"@,
        "interrupts"@ != "interrupts-extended"@,
{
    reveal_strlit("interrupt-parent");
    reveal_strlit("msi-parent");
    reveal_strlit("interrupts-extended");
    reveal_strlit("interrupts");
    assert("interrupts"@.len() != "interrupts-extended"@.len());
    reveal_strlit("#address-cells");
    assert("#address-cells"@.len() != "msi-parent"@.len() || "#address-cells"@[0] != 'm');
    assert("#address-cells"@.len() != "interrupt-parent"@.len() || "#address-cells"@[0] != 'i');
    reveal_strlit("#size-cells");
    assert("#size-cells"@.len() != "msi-parent"@.len() || "#size-cells"@[0] != 'm');
    assert("#size-cells"@.len() != "interrupt-parent"@.len() || "#size-cells"@[0] != 'i');
    reveal_strlit("timebase-frequency");
    assert("timebase-frequency"@.len() != "msi-parent"@.len() || "timebase-frequency"@[0] != 'm');
    assert("timebase-frequency"@.len() != "interrupt-parent"@.len() || "timebase-frequency"@[0] != 'i');
    reveal_strlit("reg");
    assert("reg"@.len() != "msi-parent"@.len() || "reg"@[0] != 'm');
    assert("reg"@.len() != "interrupt-parent"@.len() || "reg"@[0] != 'i');
    reveal_strlit("#interrupt-cells");
    assert("#interrupt-cells"@.len() != "msi-parent"@.len() || "#interrupt-cells"@[0] != 'm');
    assert("#interrupt-cells"@.len() != "interrupt-parent"@.len() || "#interrupt-cells"@[0] != 'i');
    reveal_strlit("phandle");
    assert("phandle"@.len() != "msi-parent"@.len() || "phandle"@[0] != 'm');
    assert("phandle"@.len() != "interrupt-parent"@.len() || "phandle"@[0] != 'i');
    reveal_strlit("riscv,guest-index-bits");
    assert("riscv,guest-index-bits"@.len() != "msi-parent"@.len() || "riscv,guest-index-bits"@[0] != 'm');
    assert("riscv,guest-index-bits"@.len() != "interrupt-parent"@.len() || "riscv,guest-index-bits"@[0] != 'i');
    reveal_strlit("riscv,num-ids");
    assert("riscv,num-ids"@.len() != "msi-parent"@.len() || "riscv,num-ids"@[0] != 'm');
    assert("riscv,num-ids"@.len() != "interrupt-parent"@.len() || "riscv,num-ids"@[0] != 'i');
    reveal_strlit("riscv,num-sources");
    assert("riscv,num-sources"@.len() != "msi-parent"@.len() || "riscv,num-sources"@[0] != 'm');
    assert("riscv,num-sources"@.len() != "interrupt-parent"@.len() || "riscv,num-sources"@[0] != 'i');
    reveal_strlit("clock-frequency");
    assert("clock-frequency"@.len() != "msi-parent"@.len() || "clock-frequency"@[0] != 'm');
    assert("clock-frequency"@.len() != "interrupt-parent"@.len() || "clock-frequency"@[0] != 'i');
    reveal_strlit("current-speed");
    assert("current-speed"@.len() != "msi-parent"@.len() || "current-speed"@[0] != 'm');
    assert("current-speed"@.len() != "interrupt-parent"@.len() || "current-speed"@[0] != 'i');
}

proof fn lemma_refs_none(s: Seq<FdtItem>)
    requires
        forall|k: int| 0 <= k < s.len() ==> item_refs(#[trigger] s[k]) == Seq::<u32>::empty(),
    ensures
        phandle_refs(s) == Seq::<u32>::empty(),
    decreases s.len(),
{
    if s.len() > 0 {
        lemma_refs_none(s.drop_last());
        assert(item_refs(s[s.len() - 1]) == Seq::<u32>::empty());
        assert(phandle_refs(s) =~= Seq::<u32>::empty());
    }
}

proof fn lemma_refs_one(s: Seq<FdtItem>, m: int)
    requires
        0 <= m < s.len(),
        forall|k: int|
            0 <= k < s.len() && k != m ==> item_refs(#[trigger] s[k]) == Seq::<u32>::empty(),
    ensures
        phandle_refs(s) == item_refs(s[m]),
{
    let a = s.take(m);
    let b = seq![s[m]];
    let c = s.skip(m + 1);
    assert(s =~= a + b + c);
    assert forall|k: int| 0 <= k < a.len() implies item_refs(#[trigger] a[k]) == Seq::<u32>::empty() by {
        assert(a[k] == s[k]);
    }
    assert forall|k: int| 0 <= k < c.len() implies item_refs(#[trigger] c[k]) == Seq::<u32>::empty() by {
        assert(c[k] == s[k + m + 1]);
    }
    lemma_refs_none(a);
    lemma_refs_none(c);
    lemma_refs_concat(a, b);
    lemma_refs_concat(a + b, c);
    reveal_with_fuel(phandle_refs, 2);
    assert(b.drop_last() =~= Seq::<FdtItem>::empty());
    assert(phandle_refs(s) =~= item_refs(s[m]));
}

proof fn lemma_cpu_nodes_refs(n: int, isa: Seq<char>)
    ensures
        phandle_refs(spec_cpu_nodes(n, isa)) == Seq::<u32>::empty(),
    decreases n,
{
    if n > 0 {
        lemma_cpu_nodes_refs(n - 1, isa);
        lemma_refs_concat(spec_cpu_nodes(n - 1, isa), spec_cpu_node(n - 1, isa));
        lemma_reference_names();
        let s = spec_cpu_node(n - 1, isa);
        assert forall|k: int| 0 <= k < s.len() implies item_refs(#[trigger] s[k]) == Seq::<u32>::empty() by {
            if k == 0 {
        } else if k == 1 {
        } else if k == 2 {
        } else if k == 3 {
        } else if k == 4 {
        } else if k == 5 {
        } else if k == 6 {
        } else if k == 7 {
        } else if k == 8 {
        } else if k == 9 {
        } else if k == 10 {
        } else if k == 11 {
        } else if k == 12 {
        } else if k == 13 {
        }
        }
        lemma_refs_none(s);
    } else {
        reveal_with_fuel(phandle_refs, 1);
    }
}

/// Every reference of `s` is `v`.
pub open spec fn all_refs_are(s: Seq<u32>, v: u32) -> bool {
    forall|i: int| 0 <= i < s.len() ==> s[i] == v
}

proof fn lemma_device_node_refs(dev: MmioDeviceInfo, use_aia: bool, serial: bool)
    ensures
        ({
            let r = phandle_refs(
                if serial {
                    spec_serial_node(dev, use_aia)
                } else {
                    spec_virtio_node(dev, use_aia)
                },
            );
            &&& all_refs_are(r, crate::fdt::APLIC_PHANDLE)
            &&& !use_aia ==> r.len() == 0
        }),
{
    lemma_reference_names();
    reveal_strlit("interrupt-parent");
    let s = if serial {
        spec_serial_node(dev, use_aia)
    } else {
        spec_virtio_node(dev, use_aia)
    };
    if use_aia {
        let m: int = if serial {
            5
        } else {
            4
        };
        assert forall|k: int| 0 <= k < s.len() && k != m implies item_refs(#[trigger] s[k])
            == Seq::<u32>::empty() by {
            if k == 0 {
        } else if k == 1 {
        } else if k == 2 {
        } else if k == 3 {
        } else if k == 4 {
        } else if k == 5 {
        } else if k == 6 {
        } else if k == 7 {
        }
        }
        lemma_refs_one(s, m);
        assert(item_refs(s[m]) =~= seq![crate::fdt::APLIC_PHANDLE]);
    } else {
        assert forall|k: int| 0 <= k < s.len() implies item_refs(#[trigger] s[k])
            == Seq::<u32>::empty() by {
            if k == 0 {
        } else if k == 1 {
        } else if k == 2 {
        } else if k == 3 {
        } else if k == 4 {
        } else if k == 5 {
        } else if k == 6 {
        } else if k == 7 {
        }
        }
        lemma_refs_none(s);
    }
}

proof fn lemma_virtio_nodes_refs(s: Seq<MmioDeviceInfo>, use_aia: bool)
    ensures
        all_refs_are(phandle_refs(spec_virtio_nodes(s, use_aia)), crate::fdt::APLIC_PHANDLE),
        !use_aia ==> phandle_refs(spec_virtio_nodes(s, use_aia)).len() == 0,
    decreases s.len(),
{
    if s.len() > 0 {
        lemma_virtio_nodes_refs(s.drop_last(), use_aia);
        lemma_refs_concat(spec_virtio_nodes(s.drop_last(), use_aia), spec_virtio_node(s.last(), use_aia));
        lemma_device_node_refs(s.last(), use_aia, false);
    } else {
        reveal_with_fuel(phandle_refs, 1);
    }
}

proof fn lemma_aia_refs(vcpu_count: u8)
    ensures
        phandle_refs(spec_aia_nodes(vcpu_count)) == spec_cpu_phandles(vcpu_count as int) + seq![
            crate::fdt::IMSIC_PHANDLE,
        ],
{
    lemma_reference_names();
    reveal_strlit("interrupts-extended");
    reveal_strlit("msi-parent");
    let aia = spec_aia_nodes(vcpu_count);
    let a = aia.subrange(0, 11);
    let b = aia.subrange(11, 21);
    assert forall|k: int| 0 <= k < a.len() && k != 9 implies item_refs(#[trigger] a[k])
        == Seq::<u32>::empty() by {
        if k == 0 {
        } else if k == 1 {
        } else if k == 2 {
        } else if k == 3 {
        } else if k == 4 {
        } else if k == 5 {
        } else if k == 6 {
        } else if k == 7 {
        } else if k == 8 {
        } else if k == 9 {
        } else if k == 10 {
        }
    }
    assert forall|k: int| 0 <= k < b.len() && k != 6 implies item_refs(#[trigger] b[k])
        == Seq::<u32>::empty() by {
        if k == 0 {
        } else if k == 1 {
        } else if k == 2 {
        } else if k == 3 {
        } else if k == 4 {
        } else if k == 5 {
        } else if k == 6 {
        } else if k == 7 {
        } else if k == 8 {
        } else if k == 9 {
        }
    }
    lemma_refs_one(a, 9);
    lemma_refs_one(b, 6);
    let n = vcpu_count as int;
    let cells = crate::fdt::spec_interrupts_extended(n);
    assert(item_refs(a[9]) == even_cells(cells));
    assert forall|i: int| 0 <= i < n implies #[trigger] even_cells(cells)[i] == spec_cpu_phandles(n)[i] by {
        assert((2 * i) % 2 == 0);
        assert((2 * i) / 2 == i);
    }
    assert(even_cells(cells) =~= spec_cpu_phandles(n));
    assert(item_refs(b[6]) =~= seq![crate::fdt::IMSIC_PHANDLE]);
    assert(aia =~= a + b);
    lemma_refs_concat(a, b);
}

proof fn lemma_misc_refs(
    dram: GuestRegion,
    vcpu_count: u8,
    cmdline: Seq<char>,
    serial: Option<MmioDeviceInfo>,
    virtio: Seq<MmioDeviceInfo>,
    initrd: Option<InitrdConfig>,
    features: RiscvPlatformFeatures,
)
    ensures
        phandle_refs(spec_fdt_items(dram, vcpu_count, cmdline, serial, virtio, initrd, features).subrange(0, 5)) == Seq::<u32>::empty(),
        phandle_refs(spec_cpus_node(vcpu_count, features.isa).subrange(0, 4)) == Seq::<u32>::empty(),
        phandle_refs(spec_memory_node(dram)) == Seq::<u32>::empty(),
        phandle_refs(spec_chosen_node(cmdline, serial, initrd)) == Seq::<u32>::empty(),
{
    lemma_reference_names();
    let h = spec_fdt_items(dram, vcpu_count, cmdline, serial, virtio, initrd, features).subrange(0, 5);
    assert forall|k: int| 0 <= k < h.len() implies item_refs(#[trigger] h[k]) == Seq::<u32>::empty() by {
        if k == 0 {
        } else if k == 1 {
        } else if k == 2 {
        } else if k == 3 {
        } else if k == 4 {
        }
    }
    lemma_refs_none(h);
    let c = spec_cpus_node(vcpu_count, features.isa).subrange(0, 4);
    assert forall|k: int| 0 <= k < c.len() implies item_refs(#[trigger] c[k]) == Seq::<u32>::empty() by {
        if k == 0 {
        } else if k == 1 {
        } else if k == 2 {
        } else if k == 3 {
        }
    }
    lemma_refs_none(c);
    let m = spec_memory_node(dram);
    assert forall|k: int| 0 <= k < m.len() implies item_refs(#[trigger] m[k]) == Seq::<u32>::empty() by {
        if k == 0 {
        } else if k == 1 {
        } else if k == 2 {
        } else if k == 3 {
        }
    }
    lemma_refs_none(m);
    let ch = spec_chosen_node(cmdline, serial, initrd);
    assert forall|k: int| 0 <= k < ch.len() implies item_refs(#[trigger] ch[k]) == Seq::<u32>::empty() by {
        if k == 0 {
        } else if k == 1 {
        } else if k == 2 {
        } else if k == 3 {
        } else if k == 4 {
        } else if k == 5 {
        }
    }
    lemma_refs_none(ch);
}

/// Every phandle that the generated device tree refers to (the interrupt
/// parent of the devices, the MSI parent of the APLIC, the CPU controllers of
/// the IMSIC) is defined in the tree; without the AIA nothing refers to a
/// phandle.
#[verifier::rlimit(50)]
pub proof fn lemma_fdt_refs_defined(
    dram: GuestRegion,
    vcpu_count: u8,
    cmdline: Seq<char>,
    serial: Option<MmioDeviceInfo>,
    virtio: Seq<MmioDeviceInfo>,
    initrd: Option<InitrdConfig>,
    features: RiscvPlatformFeatures,
)
    ensures
        ({
            let items = spec_fdt_items(dram, vcpu_count, cmdline, serial, virtio, initrd, features);
            let r = phandle_refs(items);
            &&& forall|i: int| 0 <= i < r.len() ==> phandles(items).contains(#[trigger] r[i])
            &&& !features.aia ==> r.len() == 0
        }),
{
    let isa = crate::fdt::spec_isa_string(features.isa);
    let items = spec_fdt_items(dram, vcpu_count, cmdline, serial, virtio, initrd, features);
    let head = items.subrange(0, 5);
    let cpus = spec_cpus_node(vcpu_count, features.isa);
    let mem = spec_memory_node(dram);
    let chosen = spec_chosen_node(cmdline, serial, initrd);
    let aia_part = if features.aia {
        spec_aia_nodes(vcpu_count)
    } else {
        Seq::<FdtItem>::empty()
    };
    let devs = spec_devices_nodes(serial, virtio, features.aia);
    let end = seq![FdtItem::EndNode];
    assert(items =~= head + cpus + mem + chosen + aia_part + devs + end);
    lemma_misc_refs(dram, vcpu_count, cmdline, serial, virtio, initrd, features);
    reveal_with_fuel(phandle_refs, 2);
    assert(end.drop_last() =~= Seq::<FdtItem>::empty());
    assert(phandle_refs(end) =~= Seq::<u32>::empty());
    assert(phandle_refs(Seq::<FdtItem>::empty()) =~= Seq::<u32>::empty());
    lemma_cpu_nodes_refs(vcpu_count as int, isa);
    let cpus_head = cpus.subrange(0, 4);
    assert(cpus =~= cpus_head + spec_cpu_nodes(vcpu_count as int, isa) + end);
    lemma_refs_concat(cpus_head, spec_cpu_nodes(vcpu_count as int, isa));
    lemma_refs_concat(cpus_head + spec_cpu_nodes(vcpu_count as int, isa), end);
    assert(phandle_refs(cpus) =~= Seq::<u32>::empty());
    lemma_aia_refs(vcpu_count);
    let serial_part = match serial {
        Some(info) => spec_serial_node(info, features.aia),
        None => Seq::<FdtItem>::empty(),
    };
    if let Some(info) = serial {
        lemma_device_node_refs(info, features.aia, true);
    }
    let sorted = crate::devices::spec_sort_by_addr(virtio);
    lemma_virtio_nodes_refs(sorted, features.aia);
    lemma_refs_concat(serial_part, spec_virtio_nodes(sorted, features.aia));
    let dr = phandle_refs(devs);
    assert(all_refs_are(dr, crate::fdt::APLIC_PHANDLE)) by {
        let sr = phandle_refs(serial_part);
        let vr = phandle_refs(spec_virtio_nodes(sorted, features.aia));
        assert(all_refs_are(sr, crate::fdt::APLIC_PHANDLE));
        assert forall|i: int| 0 <= i < dr.len() implies dr[i] == crate::fdt::APLIC_PHANDLE by {
            if i < sr.len() {
                assert(dr[i] == sr[i]);
            } else {
                assert(dr[i] == vr[i - sr.len()]);
            }
        }
    }
    lemma_refs_concat(head, cpus);
    lemma_refs_concat(head + cpus, mem);
    lemma_refs_concat(head + cpus + mem, chosen);
    lemma_refs_concat(head + cpus + mem + chosen, aia_part);
    lemma_refs_concat(head + cpus + mem + chosen + aia_part, devs);
    lemma_refs_concat(head + cpus + mem + chosen + aia_part + devs, end);
    let ar = phandle_refs(aia_part);
    assert(phandle_refs(items) =~= ar + dr);
    lemma_fdt_phandles_unique(dram, vcpu_count, cmdline, serial, virtio, initrd, features);
    let p = phandles(items);
    let r = phandle_refs(items);
    let n = vcpu_count as int;
    if features.aia {
        assert forall|i: int| 0 <= i < r.len() implies p.contains(#[trigger] r[i]) by {
            if i < n {
                assert(r[i] == spec_cpu_phandles(n)[i]);
                assert(p[i] == r[i]);
            } else if i == n {
                assert(r[i] == crate::fdt::IMSIC_PHANDLE);
                assert(p[n] == crate::fdt::IMSIC_PHANDLE);
            } else {
                assert(r[i] == dr[i - n - 1]);
                assert(p[n + 1] == crate::fdt::APLIC_PHANDLE);
            }
        }
    } else {
        assert(ar.len() == 0);
    }
}

} // verus!
