//! The flattened device tree that describes the RISC-V microVM to the guest
//! kernel: the CPUs with their interrupt controllers, the RAM, the boot
//! arguments, the AIA interrupt controllers and the MMIO devices.
//!
//! Each `create_*` function writes its part of the tree and, when every write
//! succeeds, has written exactly the items that the matching `spec_*`
//! function lists.

use vstd::prelude::*;

use crate::devices::{
    lemma_sort_by_addr, sort_by_addr, spec_sort_by_addr, MmioDeviceInfo, MmioDevices,
};
use crate::fdt_writer::{
    encode_items, fdt_begin_node, fdt_blob, fdt_contents, fdt_default_header, fdt_end_node, fdt_node_depth, fdt_finish, fdt_new,
    fdt_property_array_u32, fdt_property_array_u64, fdt_property_null, fdt_property_string,
    fdt_property_string_list, fdt_property_u32, fdt_property_u64, fdt_size_bound,
    hex_digit, lemma_encode_concat, node_name_char, node_name_valid, property_name_valid, spec_hex,
    str_list_chars, token_room, writer_state, FdtItem, FdtToken, FdtValue,
};
use crate::layout::{
    AIA_APLIC_MEM_SIZE, AIA_APLIC_MEM_START, AIA_IMSIC_GUEST_INDEX_BITS, AIA_IMSIC_MEM_SIZE,
    AIA_IMSIC_MEM_START, AIA_IMSIC_NUM_IDS, GSI_LEGACY_NUM,
};
use crate::memory::{first_dram, has_dram, GuestMemoryLayout, GuestRegion};
use crate::vcpu::RiscvIsaExtensions;

verus! {

broadcast use crate::fdt_writer::lemma_writer_state_push;

/// Number of cells of an address in the root node.
pub const ADDRESS_CELLS: u32 = 2;
/// Number of cells of a size in the root node.
pub const SIZE_CELLS: u32 = 2;
/// Phandle of the APLIC.
pub const APLIC_PHANDLE: u32 = 1;
/// Phandle of the IMSIC.
pub const IMSIC_PHANDLE: u32 = 2;
/// Phandle of the interrupt controller of CPU 0; CPU `i` has this plus `i`.
pub const CPU_INTC_PHANDLE_BASE: u32 = 0x100;
/// Interrupt type cell of an edge-triggered, rising interrupt.
pub const IRQ_TYPE_EDGE_RISING: u32 = 1;
/// Supervisor external interrupt number of a RISC-V hart.
pub const RISCV_SUPERVISOR_EXTERNAL_IRQ: u32 = 9;
/// Frequency of the timebase of the CPUs.
pub const TIMEBASE_FREQUENCY: u32 = 10_000_000;
/// Clock frequency of the UART.
pub const UART_CLOCK_FREQUENCY: u32 = 3_686_400;
/// Baud rate of the UART.
pub const UART_CURRENT_SPEED: u32 = 115_200;

/// RISC-V platform features that are safe to expose to the guest.
#[derive(Clone, Copy, Debug, Default, PartialEq, Eq, Structural)]
pub struct RiscvPlatformFeatures {
    /// Expose the AIA interrupt controller nodes.
    pub aia: bool,
    /// Expose CPU ISA extensions.
    pub isa: RiscvIsaExtensions,
}

/// Where the initrd was loaded in guest memory.
#[derive(Clone, Copy, Debug, PartialEq, Eq, Structural)]
pub struct InitrdConfig {
    /// Guest physical address of the initrd.
    pub address: u64,
    /// Size of the initrd in bytes.
    pub size: usize,
}

/// Errors thrown while configuring the flattened device tree for riscv64.
#[derive(Debug)]
pub enum FdtError {
    /// Create FDT error.
    CreateFdt(vm_fdt::Error),
    /// Failure in writing FDT in memory.
    WriteFdtToMemory(vm_memory::GuestMemoryError),
}

/// The error of a writer call as an error of the library.
pub open spec fn spec_fdt_err<T>(r: Result<T, vm_fdt::Error>) -> Result<T, FdtError> {
    match r {
        Ok(v) => Ok(v),
        Err(e) => Err(FdtError::CreateFdt(e)),
    }
}

fn fdt_err<T>(r: Result<T, vm_fdt::Error>) -> (out: Result<T, FdtError>)
    ensures
        out == spec_fdt_err(r),
{
    match r {
        Ok(v) => Ok(v),
        Err(e) => Err(FdtError::CreateFdt(e)),
    }
}

/// A property item.
pub open spec fn prop(name: Seq<char>, value: FdtValue) -> FdtItem {
    FdtItem::Property(name, value)
}

/// The phandle of the interrupt controller of CPU `cpu_index`.
pub open spec fn spec_cpu_intc_phandle(cpu_index: int) -> u32 {
    (CPU_INTC_PHANDLE_BASE + cpu_index) as u32
}

/// Returns the phandle of the interrupt controller of CPU `cpu_index`.
pub fn cpu_intc_phandle(cpu_index: u8) -> (r: u32)
    ensures
        r == spec_cpu_intc_phandle(cpu_index as int),
        r == CPU_INTC_PHANDLE_BASE + cpu_index,
{
    CPU_INTC_PHANDLE_BASE + cpu_index as u32
}

/// The `riscv,isa` string of the CPUs: the base ISA and the exposed extensions.
pub open spec fn spec_isa_string(isa: RiscvIsaExtensions) -> Seq<char> {
    "rv64imafdc_zicsr_zifencei"@ + (if isa.ssaia {
        "_ssaia"@
    } else {
        Seq::empty()
    }) + (if isa.sstc {
        "_sstc"@
    } else {
        Seq::empty()
    })
}

/// Returns the `riscv,isa` string of the CPUs.
pub fn riscv_isa_string(isa: RiscvIsaExtensions) -> (r: String)
    ensures
        r@ == spec_isa_string(isa),
{
    let mut isa_string = String::from_str("rv64imafdc_zicsr_zifencei");
    if isa.ssaia {
        isa_string.append("_ssaia");
    }
    if isa.sstc {
        isa_string.append("_sstc");
    }
    proof {
        assert(isa_string@ =~= spec_isa_string(isa));
    }
    isa_string
}

/// The lower-case hexadecimal digit `d` as a one-character string.
fn hex_digit_str(d: u64) -> (r: &'static str)
    requires
        d < 16,
    ensures
        r@ == seq![hex_digit(d as int)],
{
    proof {
        assert(('0' as int) == 48 && ('a' as int) == 97);
    }
    let r = match d {
        0 => "0",
        1 => "1",
        2 => "2",
        3 => "3",
        4 => "4",
        5 => "5",
        6 => "6",
        7 => "7",
        8 => "8",
        9 => "9",
        10 => "a",
        11 => "b",
        12 => "c",
        13 => "d",
        14 => "e",
        _ => "f",
    };
    proof {
        reveal_strlit("0");
        reveal_strlit("1");
        reveal_strlit("2");
        reveal_strlit("3");
        reveal_strlit("4");
        reveal_strlit("5");
        reveal_strlit("6");
        reveal_strlit("7");
        reveal_strlit("8");
        reveal_strlit("9");
        reveal_strlit("a");
        reveal_strlit("b");
        reveal_strlit("c");
        reveal_strlit("d");
        reveal_strlit("e");
        reveal_strlit("f");
        assert(r@ =~= seq![hex_digit(d as int)]);
    }
    r
}

/// Appends the lower-case hexadecimal digits of `v`, without leading zeros.
fn append_hex(s: &mut String, v: u64)
    ensures
        final(s)@ == old(s)@ + spec_hex(v as nat),
    decreases v,
{
    if v >= 16 {
        append_hex(s, v / 16);
    }
    s.append(hex_digit_str(v % 16));
    proof {
        if v >= 16 {
            assert(spec_hex(v as nat) == spec_hex((v / 16) as nat).push(hex_digit((v % 16) as int)));
        } else {
            assert(spec_hex(v as nat) == seq![hex_digit(v as int)]);
        }
        assert(s@ =~= old(s)@ + spec_hex(v as nat));
    }
}

/// `prefix` followed by the lower-case hexadecimal digits of `v`, as
/// `format!("{prefix}{v:x}")` writes it.
fn format_hex_name(prefix: &str, v: u64) -> (r: String)
    ensures
        r@ == prefix@ + spec_hex(v as nat),
{
    let mut s = String::from_str(prefix);
    append_hex(&mut s, v);
    s
}

/// A writer that holds `t` can open `k` more nodes, one inside the other.
pub open spec fn depth_room(t: Seq<FdtToken>, k: int) -> bool {
    0 <= writer_state(t).0 && writer_state(t).0 + k <= 64
}

/// A string that `vm_fdt` writes as a property value: no NUL inside, and short
/// enough that its bytes and NUL have a 32-bit length.
pub open spec fn text_ok(s: Seq<char>) -> bool {
    &&& s.len() < 0x4000_0000
    &&& forall|i: int| 0 <= i < s.len() ==> #[trigger] s[i] != '\0'
}

/// `16^k`.
pub open spec fn pow16(k: nat) -> nat
    decreases k,
{
    if k == 0 {
        1
    } else {
        16 * pow16((k - 1) as nat)
    }
}

/// The hexadecimal digits are letters or digits.
proof fn lemma_hex_chars(v: nat)
    ensures
        forall|i: int|
            0 <= i < spec_hex(v).len() ==> node_name_char(#[trigger] spec_hex(v)[i]) && spec_hex(
                v,
            )[i] != '@' && spec_hex(v)[i] != '\0',
    decreases v,
{
    let d = (v % 16) as int;
    assert(('0' as int) == 48 && ('a' as int) == 97);
    assert(hex_digit(d) as int == if d < 10 { 48 + d } else { 87 + d });
    assert(node_name_char(hex_digit(d)) && hex_digit(d) != '@' && hex_digit(d) != '\0');
    let h = spec_hex(v);
    if v < 16 {
        assert(h == seq![hex_digit(d)]);
    } else {
        lemma_hex_chars(v / 16);
        let p = spec_hex(v / 16);
        assert(h == p.push(hex_digit(d)));
        assert forall|i: int| 0 <= i < h.len() implies node_name_char(#[trigger] h[i]) && h[i] != '@'
            && h[i] != '\0' by {
            if i < p.len() {
                assert(h[i] == p[i]);
            }
        }
    }
}

/// A value below `16^k` has at most `k` hexadecimal digits.
proof fn lemma_hex_len(v: nat, k: nat)
    requires
        k >= 1,
        v < pow16(k),
    ensures
        spec_hex(v).len() <= k,
    decreases k,
{
    if v >= 16 {
        assert(k >= 2) by {
            if k == 1 {
                assert(pow16(1) == 16) by {
                    reveal_with_fuel(pow16, 2);
                }
            }
        }
        assert(v / 16 < pow16((k - 1) as nat));
        lemma_hex_len(v / 16, (k - 1) as nat);
    }
}

/// A 64-bit value has at most 16 hexadecimal digits, all letters or digits.
proof fn lemma_hex_u64(v: u64)
    ensures
        spec_hex(v as nat).len() <= 16,
        forall|i: int|
            0 <= i < spec_hex(v as nat).len() ==> node_name_char(#[trigger] spec_hex(v as nat)[i])
                && spec_hex(v as nat)[i] != '@' && spec_hex(v as nat)[i] != '\0',
{
    assert(pow16(16) == 0x1_0000_0000_0000_0000) by {
        reveal_with_fuel(pow16, 17);
    }
    lemma_hex_len(v as nat, 16);
    lemma_hex_chars(v as nat);
}

/// A node name made of a literal base, `@`, and a value in hexadecimal is
/// valid.
proof fn lemma_hex_node_name(prefix: Seq<char>, v: u64)
    requires
        2 <= prefix.len() <= 32,
        prefix[prefix.len() - 1] == '@',
        0x61 <= prefix[0] as int <= 0x7a,
        forall|i: int| 0 <= i < prefix.len() - 1 ==> #[trigger] node_name_char(prefix[i]),
    ensures
        node_name_valid(prefix + spec_hex(v as nat)),
{
    lemma_hex_u64(v);
    let h = spec_hex(v as nat);
    let name = prefix + h;
    let k = prefix.len() - 1;
    assert forall|i: int| 0 <= i < name.len() implies name[i] == '@' || node_name_char(
        #[trigger] name[i],
    ) by {
        if i >= prefix.len() {
            assert(name[i] == h[i - prefix.len()]);
        }
    }
    assert forall|i: int| 0 <= i < name.len() && #[trigger] name[i] == '@' implies i == k by {
        if i >= prefix.len() {
            assert(name[i] == h[i - prefix.len()]);
        } else if i < k {
            assert(node_name_char(prefix[i]));
        }
    }
    assert(name[k] == '@');
}

/// The property names that the tree uses are valid.
proof fn lemma_property_names()
    ensures
        property_name_valid("compatible"@),
        property_name_valid("model"@),
        property_name_valid("#address-cells"@),
        property_name_valid("#size-cells"@),
        property_name_valid("timebase-frequency"@),
        property_name_valid("device_type"@),
        property_name_valid("riscv,isa"@),
        property_name_valid("mmu-type"@),
        property_name_valid("status"@),
        property_name_valid("reg"@),
        property_name_valid("interrupt-controller"@),
        property_name_valid("#interrupt-cells"@),
        property_name_valid("phandle"@),
        property_name_valid("bootargs"@),
        property_name_valid("stdout-path"@),
        property_name_valid("linux,initrd-start"@),
        property_name_valid("linux,initrd-end"@),
{
    reveal_strlit("compatible");
    reveal_strlit("model");
    reveal_strlit("#address-cells");
    reveal_strlit("#size-cells");
    reveal_strlit("timebase-frequency");
    reveal_strlit("device_type");
    reveal_strlit("riscv,isa");
    reveal_strlit("mmu-type");
    reveal_strlit("status");
    reveal_strlit("reg");
    reveal_strlit("interrupt-controller");
    reveal_strlit("#interrupt-cells");
    reveal_strlit("phandle");
    reveal_strlit("bootargs");
    reveal_strlit("stdout-path");
    reveal_strlit("linux,initrd-start");
    reveal_strlit("linux,initrd-end");
}

/// The property names of the interrupt controllers and devices are valid.
proof fn lemma_device_property_names()
    ensures
        property_name_valid("msi-controller"@),
        property_name_valid("riscv,guest-index-bits"@),
        property_name_valid("riscv,num-ids"@),
        property_name_valid("interrupts-extended"@),
        property_name_valid("msi-parent"@),
        property_name_valid("riscv,num-sources"@),
        property_name_valid("interrupt-parent"@),
        property_name_valid("interrupts"@),
        property_name_valid("dma-coherent"@),
        property_name_valid("clock-frequency"@),
        property_name_valid("current-speed"@),
{
    reveal_strlit("msi-controller");
    reveal_strlit("riscv,guest-index-bits");
    reveal_strlit("riscv,num-ids");
    reveal_strlit("interrupts-extended");
    reveal_strlit("msi-parent");
    reveal_strlit("riscv,num-sources");
    reveal_strlit("interrupt-parent");
    reveal_strlit("interrupts");
    reveal_strlit("dma-coherent");
    reveal_strlit("clock-frequency");
    reveal_strlit("current-speed");
}

/// The literal node names and string values of the tree are accepted.
proof fn lemma_literals()
    ensures
        node_name_valid(""@),
        node_name_valid("cpus"@),
        node_name_valid("interrupt-controller"@),
        node_name_valid("chosen"@),
        text_ok("linux,dummy-virt"@),
        text_ok("firecracker,riscv64-virt"@),
        text_ok("cpu"@),
        text_ok("riscv"@),
        text_ok("riscv,sv48"@),
        text_ok("okay"@),
        text_ok("riscv,cpu-intc"@),
        text_ok("memory"@),
        text_ok("virtio,mmio"@),
        text_ok("ns16550a"@),
{
    reveal_strlit("");
    reveal_strlit("cpus");
    reveal_strlit("interrupt-controller");
    reveal_strlit("chosen");
    reveal_strlit("linux,dummy-virt");
    reveal_strlit("firecracker,riscv64-virt");
    reveal_strlit("cpu");
    reveal_strlit("riscv");
    reveal_strlit("riscv,sv48");
    reveal_strlit("okay");
    reveal_strlit("riscv,cpu-intc");
    reveal_strlit("memory");
    reveal_strlit("virtio,mmio");
    reveal_strlit("ns16550a");
}

/// The node names made of a literal base and an address in hexadecimal are
/// valid.
proof fn lemma_hex_names(v: u64)
    ensures
        node_name_valid("cpu@"@ + spec_hex(v as nat)),
        node_name_valid("memory@"@ + spec_hex(v as nat)),
        node_name_valid("interrupt-controller@"@ + spec_hex(v as nat)),
        node_name_valid("virtio_mmio@"@ + spec_hex(v as nat)),
        node_name_valid("uart@"@ + spec_hex(v as nat)),
{
    reveal_strlit("cpu@");
    reveal_strlit("memory@");
    reveal_strlit("interrupt-controller@");
    reveal_strlit("virtio_mmio@");
    reveal_strlit("uart@");
    lemma_hex_node_name("cpu@"@, v);
    lemma_hex_node_name("memory@"@, v);
    lemma_hex_node_name("interrupt-controller@"@, v);
    lemma_hex_node_name("virtio_mmio@"@, v);
    lemma_hex_node_name("uart@"@, v);
}

/// The node of CPU `i` and of its interrupt controller.
pub open spec fn spec_cpu_node(i: int, isa: Seq<char>) -> Seq<FdtItem> {
    seq![
        FdtItem::BeginNode("cpu@"@ + spec_hex(i as nat)),
        prop("device_type"@, FdtValue::Str("cpu"@)),
        prop("compatible"@, FdtValue::Str("riscv"@)),
        prop("riscv,isa"@, FdtValue::Str(isa)),
        prop("mmu-type"@, FdtValue::Str("riscv,sv48"@)),
        prop("status"@, FdtValue::Str("okay"@)),
        prop("reg"@, FdtValue::U32(i as u32)),
        FdtItem::BeginNode("interrupt-controller"@),
        prop("interrupt-controller"@, FdtValue::Empty),
        prop("#interrupt-cells"@, FdtValue::U32(1)),
        prop("phandle"@, FdtValue::U32(spec_cpu_intc_phandle(i))),
        prop("compatible"@, FdtValue::Str("riscv,cpu-intc"@)),
        FdtItem::EndNode,
        FdtItem::EndNode,
    ]
}

/// The nodes of CPUs `0..n`.
pub open spec fn spec_cpu_nodes(n: int, isa: Seq<char>) -> Seq<FdtItem>
    decreases n,
{
    if n <= 0 {
        Seq::empty()
    } else {
        spec_cpu_nodes(n - 1, isa) + spec_cpu_node(n - 1, isa)
    }
}

/// The `cpus` node with the nodes of `vcpu_count` CPUs.
pub open spec fn spec_cpus_node(vcpu_count: u8, isa: RiscvIsaExtensions) -> Seq<FdtItem> {
    seq![
        FdtItem::BeginNode("cpus"@),
        prop("#address-cells"@, FdtValue::U32(1)),
        prop("#size-cells"@, FdtValue::U32(0)),
        prop("timebase-frequency"@, FdtValue::U32(TIMEBASE_FREQUENCY)),
    ] + spec_cpu_nodes(vcpu_count as int, spec_isa_string(isa)) + seq![FdtItem::EndNode]
}

/// The nodes of CPUs `0..n` are 14 items each.
proof fn lemma_cpu_nodes_len(n: int, isa: Seq<char>)
    requires
        n >= 0,
    ensures
        spec_cpu_nodes(n, isa).len() == 14 * n,
    decreases n,
{
    if n > 0 {
        lemma_cpu_nodes_len(n - 1, isa);
    }
}

/// The `riscv,isa` string is accepted as a property value.
proof fn lemma_isa_text(isa: RiscvIsaExtensions)
    ensures
        text_ok(spec_isa_string(isa)),
{
    reveal_strlit("rv64imafdc_zicsr_zifencei");
    reveal_strlit("_ssaia");
    reveal_strlit("_sstc");
    let s = spec_isa_string(isa);
    assert forall|i: int| 0 <= i < s.len() implies #[trigger] s[i] != '\0' by {
        let a = "rv64imafdc_zicsr_zifencei"@;
        let b: Seq<char> = if isa.ssaia {
            "_ssaia"@
        } else {
            Seq::empty()
        };
        let c: Seq<char> = if isa.sstc {
            "_sstc"@
        } else {
            Seq::empty()
        };
        assert(s == a + b + c);
        if i < a.len() {
            assert(s[i] == a[i]);
        } else if i < a.len() + b.len() {
            assert(s[i] == b[i - a.len()]);
        } else {
            assert(s[i] == c[i - a.len() - b.len()]);
        }
    }
}

/// Writes the `cpus` node.
///
/// It succeeds when three more nodes can be opened and the writer has room
/// for the tokens.
#[verifier::rlimit(50)]
#[verifier::spinoff_prover]
pub fn create_cpu_nodes(fdt: &mut vm_fdt::FdtWriter, vcpu_count: u8, isa: RiscvIsaExtensions) -> (r:
    Result<(), FdtError>)
    ensures
        fdt_default_header(*final(fdt)) == fdt_default_header(*old(fdt)),
        r is Ok ==> fdt_contents(*final(fdt)) == fdt_contents(*old(fdt)) + encode_items(
            spec_cpus_node(vcpu_count, isa),
        ),
        r is Ok ==> writer_state(fdt_contents(*final(fdt))) == (
            writer_state(fdt_contents(*old(fdt))).0,
            true,
        ),
        r matches Err(e) ==> e is CreateFdt,
        depth_room(fdt_contents(*old(fdt)), 3) && token_room(
            fdt_contents(*old(fdt)),
            spec_cpus_node(vcpu_count, isa).len() as int,
        ) ==> r is Ok,
{
    let ghost start = fdt_contents(*fdt);
    let ghost d = writer_state(start).0;
    let ghost ok = depth_room(start, 3) && token_room(start, 5 + 14 * vcpu_count);
    proof {
        lemma_property_names();
        lemma_literals();
        lemma_isa_text(isa);
        lemma_cpu_nodes_len(vcpu_count as int, spec_isa_string(isa));
    }
    let cpus = fdt_err(fdt_begin_node(fdt, "cpus"))?;
    fdt_err(fdt_property_u32(fdt, "#address-cells", 1))?;
    fdt_err(fdt_property_u32(fdt, "#size-cells", 0))?;
    fdt_err(fdt_property_u32(fdt, "timebase-frequency", TIMEBASE_FREQUENCY))?;
    let ghost head = seq![
        FdtItem::BeginNode("cpus"@),
        prop("#address-cells"@, FdtValue::U32(1)),
        prop("#size-cells"@, FdtValue::U32(0)),
        prop("timebase-frequency"@, FdtValue::U32(TIMEBASE_FREQUENCY)),
    ];
    assert(fdt_contents(*fdt) =~= start + encode_items(head));
    let ghost isa_spec = spec_isa_string(isa);
    let mut cpu_index: u8 = 0;
    while cpu_index < vcpu_count
        invariant
            cpu_index <= vcpu_count,
            isa_spec == spec_isa_string(isa),
            text_ok(isa_spec),
            d == writer_state(start).0,
            fdt_contents(*fdt) == start + encode_items(head + spec_cpu_nodes(cpu_index as int, isa_spec)),
            writer_state(fdt_contents(*fdt)).0 == d + 1,
            fdt_node_depth(cpus) == d + 1,
            fdt_contents(*fdt).len() == start.len() + 4 + 14 * cpu_index,
            ok == (depth_room(start, 3) && token_room(start, 5 + 14 * vcpu_count)),
            spec_cpus_node(vcpu_count, isa).len() == 5 + 14 * vcpu_count,
            fdt_default_header(*fdt) == fdt_default_header(*old(fdt)),
            start == fdt_contents(*old(fdt)),
            property_name_valid("device_type"@),
            property_name_valid("compatible"@),
            property_name_valid("riscv,isa"@),
            property_name_valid("mmu-type"@),
            property_name_valid("status"@),
            property_name_valid("reg"@),
            property_name_valid("interrupt-controller"@),
            property_name_valid("#interrupt-cells"@),
            property_name_valid("phandle"@),
            node_name_valid("interrupt-controller"@),
            text_ok("cpu"@),
            text_ok("riscv"@),
            text_ok("riscv,sv48"@),
            text_ok("okay"@),
            text_ok("riscv,cpu-intc"@),
        decreases vcpu_count - cpu_index,
    {
        let ghost before = fdt_contents(*fdt);
        proof {
            lemma_hex_names(cpu_index as u64);
        }
        let name = format_hex_name("cpu@", cpu_index as u64);
        let cpu = fdt_err(fdt_begin_node(fdt, name.as_str()))?;
        fdt_err(fdt_property_string(fdt, "device_type", "cpu"))?;
        fdt_err(fdt_property_string(fdt, "compatible", "riscv"))?;
        let isa_string = riscv_isa_string(isa);
        fdt_err(fdt_property_string(fdt, "riscv,isa", isa_string.as_str()))?;
        fdt_err(fdt_property_string(fdt, "mmu-type", "riscv,sv48"))?;
        fdt_err(fdt_property_string(fdt, "status", "okay"))?;
        fdt_err(fdt_property_u32(fdt, "reg", cpu_index as u32))?;
        let intc = fdt_err(fdt_begin_node(fdt, "interrupt-controller"))?;
        fdt_err(fdt_property_null(fdt, "interrupt-controller"))?;
        fdt_err(fdt_property_u32(fdt, "#interrupt-cells", 1))?;
        fdt_err(fdt_property_u32(fdt, "phandle", cpu_intc_phandle(cpu_index)))?;
        fdt_err(fdt_property_string(fdt, "compatible", "riscv,cpu-intc"))?;
        fdt_err(fdt_end_node(fdt, intc))?;
        fdt_err(fdt_end_node(fdt, cpu))?;
        proof {
            assert(fdt_contents(*fdt) =~= before + encode_items(spec_cpu_node(cpu_index as int, isa_spec)));
            assert(spec_cpu_nodes(cpu_index + 1, isa_spec) == spec_cpu_nodes(
                cpu_index as int,
                isa_spec,
            ) + spec_cpu_node(cpu_index as int, isa_spec));
            assert(head + spec_cpu_nodes(cpu_index + 1, isa_spec) =~= (head + spec_cpu_nodes(
                cpu_index as int,
                isa_spec,
            )) + spec_cpu_node(cpu_index as int, isa_spec));
            lemma_encode_concat(
                head + spec_cpu_nodes(cpu_index as int, isa_spec),
                spec_cpu_node(cpu_index as int, isa_spec),
            );
        }
        cpu_index = cpu_index + 1;
    }
    fdt_err(fdt_end_node(fdt, cpus))?;
    proof {
        assert(spec_cpus_node(vcpu_count, isa) =~= (head + spec_cpu_nodes(vcpu_count as int, isa_spec))
            + seq![FdtItem::EndNode]);
        lemma_encode_concat(head + spec_cpu_nodes(vcpu_count as int, isa_spec), seq![FdtItem::EndNode]);
        assert(fdt_contents(*fdt) =~= start + encode_items(spec_cpus_node(vcpu_count, isa)));
    }
    Ok(())
}

/// The `memory` node of the RAM region `dram`.
pub open spec fn spec_memory_node(dram: GuestRegion) -> Seq<FdtItem> {
    seq![
        FdtItem::BeginNode("memory@"@ + spec_hex(dram.start as nat)),
        prop("device_type"@, FdtValue::Str("memory"@)),
        prop("reg"@, FdtValue::U64Array(seq![dram.start, dram.len])),
        FdtItem::EndNode,
    ]
}

/// Writes the `memory` node of the first DRAM region of the guest.
///
/// It succeeds when one more node can be opened and the writer has room for
/// the tokens.
pub fn create_memory_node(fdt: &mut vm_fdt::FdtWriter, guest_mem: &GuestMemoryLayout) -> (r: Result<
    (),
    FdtError,
>)
    requires
        has_dram(guest_mem@),
    ensures
        fdt_default_header(*final(fdt)) == fdt_default_header(*old(fdt)),
        r is Ok ==> fdt_contents(*final(fdt)) == fdt_contents(*old(fdt)) + encode_items(
            spec_memory_node(first_dram(guest_mem@)),
        ),
        r is Ok ==> writer_state(fdt_contents(*final(fdt))) == (
            writer_state(fdt_contents(*old(fdt))).0,
            true,
        ),
        r matches Err(e) ==> e is CreateFdt,
        depth_room(fdt_contents(*old(fdt)), 1) && token_room(fdt_contents(*old(fdt)), 4) ==> r is Ok,
{
    let ghost start = fdt_contents(*fdt);
    let dram_region = guest_mem.first_dram_region().unwrap();
    let start_addr = dram_region.start;
    let mem_reg_prop = vec![start_addr, dram_region.len];
    proof {
        lemma_property_names();
        lemma_literals();
        lemma_hex_names(start_addr);
        assert(mem_reg_prop@ =~= seq![dram_region.start, dram_region.len]);
    }
    let name = format_hex_name("memory@", start_addr);
    let mem = fdt_err(fdt_begin_node(fdt, name.as_str()))?;
    fdt_err(fdt_property_string(fdt, "device_type", "memory"))?;
    fdt_err(fdt_property_array_u64(fdt, "reg", mem_reg_prop.as_slice()))?;
    fdt_err(fdt_end_node(fdt, mem))?;
    proof {
        assert(fdt_contents(*fdt) =~= start + encode_items(spec_memory_node(dram_region)));
    }
    Ok(())
}

/// The `chosen` node: the kernel command line, the console, and the initrd.
pub open spec fn spec_chosen_node(
    cmdline: Seq<char>,
    serial: Option<MmioDeviceInfo>,
    initrd: Option<InitrdConfig>,
) -> Seq<FdtItem> {
    seq![FdtItem::BeginNode("chosen"@), prop("bootargs"@, FdtValue::Str(cmdline))] + (match serial {
        Some(info) => seq![prop("stdout-path"@, FdtValue::Str("/uart@"@ + spec_hex(info.addr as nat)))],
        None => Seq::empty(),
    }) + (match initrd {
        Some(c) => seq![
            prop("linux,initrd-start"@, FdtValue::U64(c.address)),
            prop("linux,initrd-end"@, FdtValue::U64((c.address + c.size) as u64)),
        ],
        None => Seq::empty(),
    }) + seq![FdtItem::EndNode]
}

/// The path of the serial console is accepted as a property value.
proof fn lemma_uart_path(addr: u64)
    ensures
        text_ok("/uart@"@ + spec_hex(addr as nat)),
{
    reveal_strlit("/uart@");
    lemma_hex_u64(addr);
    let p = "/uart@"@;
    let h = spec_hex(addr as nat);
    let s = p + h;
    assert forall|i: int| 0 <= i < s.len() implies #[trigger] s[i] != '\0' by {
        if i >= p.len() {
            assert(s[i] == h[i - p.len()]);
        }
    }
}

/// Writes the `chosen` node.
///
/// It succeeds when one more node can be opened, the writer has room for the
/// tokens, and the command line holds no NUL and is shorter than 2^30
/// characters. A command line with a NUL is refused.
#[verifier::rlimit(50)]
#[verifier::spinoff_prover]
pub fn create_chosen_node(
    fdt: &mut vm_fdt::FdtWriter,
    cmdline: String,
    devices: &MmioDevices,
    initrd: &Option<InitrdConfig>,
) -> (r: Result<(), FdtError>)
    requires
        initrd matches Some(c) ==> c.address + c.size <= u64::MAX,
    ensures
        fdt_default_header(*final(fdt)) == fdt_default_header(*old(fdt)),
        r is Ok ==> fdt_contents(*final(fdt)) == fdt_contents(*old(fdt)) + encode_items(
            spec_chosen_node(cmdline@, devices.serial, *initrd),
        ),
        r is Ok ==> writer_state(fdt_contents(*final(fdt))) == (
            writer_state(fdt_contents(*old(fdt))).0,
            true,
        ),
        r matches Err(e) ==> e is CreateFdt,
        depth_room(fdt_contents(*old(fdt)), 1) && token_room(
            fdt_contents(*old(fdt)),
            spec_chosen_node(cmdline@, devices.serial, *initrd).len() as int,
        ) && text_ok(cmdline@) ==> r is Ok,
        cmdline@.contains('\0') ==> r is Err,
{
    let ghost start = fdt_contents(*fdt);
    proof {
        lemma_property_names();
        lemma_literals();
    }
    let chosen = fdt_err(fdt_begin_node(fdt, "chosen"))?;
    fdt_err(fdt_property_string(fdt, "bootargs", cmdline.as_str()))?;
    let ghost after_args = fdt_contents(*fdt);
    if let Some(serial_info) = &devices.serial {
        proof {
            lemma_uart_path(serial_info.addr);
        }
        let path = format_hex_name("/uart@", serial_info.addr);
        fdt_err(fdt_property_string(fdt, "stdout-path", path.as_str()))?;
    }
    let ghost serial_items = match devices.serial {
        Some(info) => seq![prop("stdout-path"@, FdtValue::Str("/uart@"@ + spec_hex(info.addr as nat)))],
        None => Seq::<FdtItem>::empty(),
    };
    let ghost after_serial = fdt_contents(*fdt);
    assert(after_serial =~= after_args + encode_items(serial_items));
    if let Some(initrd_config) = initrd {
        fdt_err(fdt_property_u64(fdt, "linux,initrd-start", initrd_config.address))?;
        fdt_err(
            fdt_property_u64(
                fdt,
                "linux,initrd-end",
                initrd_config.address + initrd_config.size as u64,
            ),
        )?;
    }
    let ghost initrd_items = match *initrd {
        Some(c) => seq![
            prop("linux,initrd-start"@, FdtValue::U64(c.address)),
            prop("linux,initrd-end"@, FdtValue::U64((c.address + c.size) as u64)),
        ],
        None => Seq::<FdtItem>::empty(),
    };
    let ghost after_initrd = fdt_contents(*fdt);
    assert(after_initrd =~= after_serial + encode_items(initrd_items));
    fdt_err(fdt_end_node(fdt, chosen))?;
    proof {
        let head = seq![FdtItem::BeginNode("chosen"@), prop("bootargs"@, FdtValue::Str(cmdline@))];
        let end = seq![FdtItem::EndNode];
        assert(spec_chosen_node(cmdline@, devices.serial, *initrd) == head + serial_items
            + initrd_items + end);
        lemma_encode_concat(head, serial_items);
        lemma_encode_concat(head + serial_items, initrd_items);
        lemma_encode_concat(head + serial_items + initrd_items, end);
        assert(fdt_contents(*fdt) =~= start + encode_items(
            spec_chosen_node(cmdline@, devices.serial, *initrd),
        ));
    }
    Ok(())
}

/// The `interrupts-extended` cells of the IMSIC: for each CPU, the phandle of
/// its interrupt controller and the supervisor external interrupt.
pub open spec fn spec_interrupts_extended(vcpu_count: int) -> Seq<u32> {
    Seq::new(
        (2 * vcpu_count) as nat,
        |k: int|
            if k % 2 == 0 {
                spec_cpu_intc_phandle(k / 2)
            } else {
                RISCV_SUPERVISOR_EXTERNAL_IRQ
            },
    )
}

/// The IMSIC and APLIC nodes of the AIA.
pub open spec fn spec_aia_nodes(vcpu_count: u8) -> Seq<FdtItem> {
    seq![
        FdtItem::BeginNode("interrupt-controller@"@ + spec_hex(AIA_IMSIC_MEM_START as nat)),
        prop("compatible"@, FdtValue::StrList(seq!["qemu,imsics"@, "riscv,imsics"@])),
        prop("interrupt-controller"@, FdtValue::Empty),
        prop("msi-controller"@, FdtValue::Empty),
        prop("#interrupt-cells"@, FdtValue::U32(0)),
        prop("phandle"@, FdtValue::U32(IMSIC_PHANDLE)),
        prop("riscv,guest-index-bits"@, FdtValue::U32(AIA_IMSIC_GUEST_INDEX_BITS)),
        prop("riscv,num-ids"@, FdtValue::U32(AIA_IMSIC_NUM_IDS)),
        prop(
            "reg"@,
            FdtValue::U64Array(
                seq![AIA_IMSIC_MEM_START, (AIA_IMSIC_MEM_SIZE * vcpu_count) as u64],
            ),
        ),
        prop("interrupts-extended"@, FdtValue::U32Array(spec_interrupts_extended(vcpu_count as int))),
        FdtItem::EndNode,
        FdtItem::BeginNode("interrupt-controller@"@ + spec_hex(AIA_APLIC_MEM_START as nat)),
        prop("compatible"@, FdtValue::StrList(seq!["qemu,aplic"@, "riscv,aplic"@])),
        prop("interrupt-controller"@, FdtValue::Empty),
        prop("#interrupt-cells"@, FdtValue::U32(2)),
        prop("#address-cells"@, FdtValue::U32(0)),
        prop("phandle"@, FdtValue::U32(APLIC_PHANDLE)),
        prop("msi-parent"@, FdtValue::U32(IMSIC_PHANDLE)),
        prop("riscv,num-sources"@, FdtValue::U32(GSI_LEGACY_NUM)),
        prop("reg"@, FdtValue::U64Array(seq![AIA_APLIC_MEM_START, AIA_APLIC_MEM_SIZE])),
        FdtItem::EndNode,
    ]
}

fn string_pair(a: &str, b: &str) -> (r: Vec<String>)
    ensures
        r@.map_values(|s: String| s@) == seq![a@, b@],
        r@.len() == 2,
        r@[0]@ == a@,
        r@[1]@ == b@,
{
    let mut v: Vec<String> = Vec::new();
    v.push(String::from_str(a));
    v.push(String::from_str(b));
    proof {
        assert(v@.map_values(|s: String| s@) =~= seq![a@, b@]);
    }
    v
}

/// The `compatible` lists of the AIA nodes are accepted as property values.
proof fn lemma_compatible_lists()
    ensures
        text_ok("qemu,imsics"@),
        text_ok("riscv,imsics"@),
        text_ok("qemu,aplic"@),
        text_ok("riscv,aplic"@),
        4 * str_list_chars(seq!["qemu,imsics"@, "riscv,imsics"@]) < 0xffff_ffff,
        4 * str_list_chars(seq!["qemu,aplic"@, "riscv,aplic"@]) < 0xffff_ffff,
{
    reveal_strlit("qemu,imsics");
    reveal_strlit("riscv,imsics");
    reveal_strlit("qemu,aplic");
    reveal_strlit("riscv,aplic");
    let l1 = seq!["qemu,imsics"@, "riscv,imsics"@];
    let l2 = seq!["qemu,aplic"@, "riscv,aplic"@];
    assert(l1.drop_last() =~= seq!["qemu,imsics"@]);
    assert(l1.drop_last().drop_last() =~= Seq::<Seq<char>>::empty());
    assert(l2.drop_last() =~= seq!["qemu,aplic"@]);
    assert(l2.drop_last().drop_last() =~= Seq::<Seq<char>>::empty());
    reveal_with_fuel(str_list_chars, 3);
}

/// Returns the `interrupts-extended` cells of the IMSIC.
pub fn interrupts_extended(vcpu_count: u8) -> (r: Vec<u32>)
    ensures
        r@ == spec_interrupts_extended(vcpu_count as int),
{
    let mut cells: Vec<u32> = Vec::with_capacity(vcpu_count as usize * 2);
    let mut cpu_index: u8 = 0;
    while cpu_index < vcpu_count
        invariant
            cpu_index <= vcpu_count,
            cells@ =~= spec_interrupts_extended(cpu_index as int),
        decreases vcpu_count - cpu_index,
    {
        let cpu_phandle = cpu_intc_phandle(cpu_index);
        cells.push(cpu_phandle);
        cells.push(RISCV_SUPERVISOR_EXTERNAL_IRQ);
        proof {
            let n = cpu_index as int;
            assert forall|k: int| 0 <= k < 2 * (n + 1) implies #[trigger] cells@[k]
                == spec_interrupts_extended(n + 1)[k] by {
                if k < 2 * n {
                    assert(cells@[k] == spec_interrupts_extended(n)[k]);
                } else if k == 2 * n {
                    assert(k / 2 == n);
                } else {
                    assert(k % 2 == 1);
                }
            }
            assert(cells@ =~= spec_interrupts_extended(n + 1));
        }
        cpu_index = cpu_index + 1;
    }
    cells
}

/// Writes the IMSIC and APLIC nodes of the AIA.
///
/// It succeeds when one more node can be opened and the writer has room for
/// the tokens.
#[verifier::rlimit(50)]
#[verifier::spinoff_prover]
pub fn create_aia_nodes(fdt: &mut vm_fdt::FdtWriter, vcpu_count: u8) -> (r: Result<(), FdtError>)
    ensures
        fdt_default_header(*final(fdt)) == fdt_default_header(*old(fdt)),
        r is Ok ==> fdt_contents(*final(fdt)) == fdt_contents(*old(fdt)) + encode_items(
            spec_aia_nodes(vcpu_count),
        ),
        r is Ok ==> writer_state(fdt_contents(*final(fdt))) == (
            writer_state(fdt_contents(*old(fdt))).0,
            true,
        ),
        r matches Err(e) ==> e is CreateFdt,
        depth_room(fdt_contents(*old(fdt)), 1) && token_room(fdt_contents(*old(fdt)), 21) ==> r is Ok,
{
    let ghost start = fdt_contents(*fdt);
    proof {
        lemma_property_names();
        lemma_device_property_names();
        lemma_compatible_lists();
        lemma_hex_names(AIA_IMSIC_MEM_START);
        lemma_hex_names(AIA_APLIC_MEM_START);
    }
    let imsic_name = format_hex_name("interrupt-controller@", AIA_IMSIC_MEM_START);
    let imsic = fdt_err(fdt_begin_node(fdt, imsic_name.as_str()))?;
    let imsics = string_pair("qemu,imsics", "riscv,imsics");
    fdt_err(fdt_property_string_list(fdt, "compatible", imsics))?;
    fdt_err(fdt_property_null(fdt, "interrupt-controller"))?;
    fdt_err(fdt_property_null(fdt, "msi-controller"))?;
    fdt_err(fdt_property_u32(fdt, "#interrupt-cells", 0))?;
    fdt_err(fdt_property_u32(fdt, "phandle", IMSIC_PHANDLE))?;
    fdt_err(fdt_property_u32(fdt, "riscv,guest-index-bits", AIA_IMSIC_GUEST_INDEX_BITS))?;
    fdt_err(fdt_property_u32(fdt, "riscv,num-ids", AIA_IMSIC_NUM_IDS))?;
    let imsic_reg = vec![AIA_IMSIC_MEM_START, AIA_IMSIC_MEM_SIZE * vcpu_count as u64];
    proof {
        assert(imsic_reg@ =~= seq![AIA_IMSIC_MEM_START, (AIA_IMSIC_MEM_SIZE * vcpu_count) as u64]);
    }
    fdt_err(fdt_property_array_u64(fdt, "reg", imsic_reg.as_slice()))?;
    let cells = interrupts_extended(vcpu_count);
    fdt_err(fdt_property_array_u32(fdt, "interrupts-extended", cells.as_slice()))?;
    fdt_err(fdt_end_node(fdt, imsic))?;
    let aplic_name = format_hex_name("interrupt-controller@", AIA_APLIC_MEM_START);
    let aplic = fdt_err(fdt_begin_node(fdt, aplic_name.as_str()))?;
    let aplics = string_pair("qemu,aplic", "riscv,aplic");
    fdt_err(fdt_property_string_list(fdt, "compatible", aplics))?;
    fdt_err(fdt_property_null(fdt, "interrupt-controller"))?;
    fdt_err(fdt_property_u32(fdt, "#interrupt-cells", 2))?;
    fdt_err(fdt_property_u32(fdt, "#address-cells", 0))?;
    fdt_err(fdt_property_u32(fdt, "phandle", APLIC_PHANDLE))?;
    fdt_err(fdt_property_u32(fdt, "msi-parent", IMSIC_PHANDLE))?;
    fdt_err(fdt_property_u32(fdt, "riscv,num-sources", GSI_LEGACY_NUM))?;
    let aplic_reg = vec![AIA_APLIC_MEM_START, AIA_APLIC_MEM_SIZE];
    proof {
        assert(aplic_reg@ =~= seq![AIA_APLIC_MEM_START, AIA_APLIC_MEM_SIZE]);
    }
    fdt_err(fdt_property_array_u64(fdt, "reg", aplic_reg.as_slice()))?;
    fdt_err(fdt_end_node(fdt, aplic))?;
    proof {
        assert(fdt_contents(*fdt) =~= start + encode_items(spec_aia_nodes(vcpu_count)));
    }
    Ok(())
}

/// The interrupt properties of a device node wired to the APLIC.
pub open spec fn spec_irq_props(dev: MmioDeviceInfo, use_aia: bool) -> Seq<FdtItem> {
    if use_aia {
        seq![
            prop("interrupt-parent"@, FdtValue::U32(APLIC_PHANDLE)),
            prop("interrupts"@, FdtValue::U32Array(seq![dev.gsi.unwrap(), IRQ_TYPE_EDGE_RISING])),
        ]
    } else {
        Seq::empty()
    }
}

/// Devices have their interrupt line wherever the AIA is used.
pub open spec fn has_gsi(dev: MmioDeviceInfo, use_aia: bool) -> bool {
    use_aia ==> dev.gsi is Some
}

fn create_irq_props(fdt: &mut vm_fdt::FdtWriter, dev_info: &MmioDeviceInfo, use_aia: bool) -> (r:
    Result<(), FdtError>)
    requires
        has_gsi(*dev_info, use_aia),
    ensures
        fdt_default_header(*final(fdt)) == fdt_default_header(*old(fdt)),
        r is Ok ==> fdt_contents(*final(fdt)) == fdt_contents(*old(fdt)) + encode_items(
            spec_irq_props(*dev_info, use_aia),
        ),
        r is Ok ==> writer_state(fdt_contents(*final(fdt))) == writer_state(fdt_contents(*old(fdt))),
        r matches Err(e) ==> e is CreateFdt,
        writer_state(fdt_contents(*old(fdt))).0 >= 1 && !writer_state(fdt_contents(*old(fdt))).1
            && token_room(fdt_contents(*old(fdt)), spec_irq_props(*dev_info, use_aia).len() as int)
            ==> r is Ok,
{
    let ghost start = fdt_contents(*fdt);
    proof {
        lemma_device_property_names();
    }
    if use_aia {
        fdt_err(fdt_property_u32(fdt, "interrupt-parent", APLIC_PHANDLE))?;
        let irq = vec![dev_info.gsi.unwrap(), IRQ_TYPE_EDGE_RISING];
        proof {
            assert(irq@ =~= seq![dev_info.gsi.unwrap(), IRQ_TYPE_EDGE_RISING]);
        }
        fdt_err(fdt_property_array_u32(fdt, "interrupts", irq.as_slice()))?;
    }
    proof {
        assert(fdt_contents(*fdt) =~= start + encode_items(spec_irq_props(*dev_info, use_aia)));
    }
    Ok(())
}

/// The node of a virtio MMIO device.
pub open spec fn spec_virtio_node(dev: MmioDeviceInfo, use_aia: bool) -> Seq<FdtItem> {
    seq![
        FdtItem::BeginNode("virtio_mmio@"@ + spec_hex(dev.addr as nat)),
        prop("dma-coherent"@, FdtValue::Empty),
        prop("compatible"@, FdtValue::Str("virtio,mmio"@)),
        prop("reg"@, FdtValue::U64Array(seq![dev.addr, dev.len])),
    ] + spec_irq_props(dev, use_aia) + seq![FdtItem::EndNode]
}

/// Writes the node of a virtio MMIO device.
///
/// It succeeds when one more node can be opened and the writer has room for
/// the tokens.
pub fn create_virtio_node(fdt: &mut vm_fdt::FdtWriter, dev_info: &MmioDeviceInfo, use_aia: bool) -> (r:
    Result<(), FdtError>)
    requires
        has_gsi(*dev_info, use_aia),
    ensures
        fdt_default_header(*final(fdt)) == fdt_default_header(*old(fdt)),
        r is Ok ==> fdt_contents(*final(fdt)) == fdt_contents(*old(fdt)) + encode_items(
            spec_virtio_node(*dev_info, use_aia),
        ),
        r is Ok ==> writer_state(fdt_contents(*final(fdt))) == (
            writer_state(fdt_contents(*old(fdt))).0,
            true,
        ),
        r matches Err(e) ==> e is CreateFdt,
        depth_room(fdt_contents(*old(fdt)), 1) && token_room(
            fdt_contents(*old(fdt)),
            spec_virtio_node(*dev_info, use_aia).len() as int,
        ) ==> r is Ok,
{
    let ghost start = fdt_contents(*fdt);
    proof {
        lemma_property_names();
        lemma_device_property_names();
        lemma_literals();
        lemma_hex_names(dev_info.addr);
    }
    let name = format_hex_name("virtio_mmio@", dev_info.addr);
    let virtio_mmio = fdt_err(fdt_begin_node(fdt, name.as_str()))?;
    fdt_err(fdt_property_null(fdt, "dma-coherent"))?;
    fdt_err(fdt_property_string(fdt, "compatible", "virtio,mmio"))?;
    let reg = vec![dev_info.addr, dev_info.len];
    proof {
        assert(reg@ =~= seq![dev_info.addr, dev_info.len]);
    }
    fdt_err(fdt_property_array_u64(fdt, "reg", reg.as_slice()))?;
    let ghost mid = fdt_contents(*fdt);
    create_irq_props(fdt, dev_info, use_aia)?;
    fdt_err(fdt_end_node(fdt, virtio_mmio))?;
    proof {
        let head = seq![
            FdtItem::BeginNode("virtio_mmio@"@ + spec_hex(dev_info.addr as nat)),
            prop("dma-coherent"@, FdtValue::Empty),
            prop("compatible"@, FdtValue::Str("virtio,mmio"@)),
            prop("reg"@, FdtValue::U64Array(seq![dev_info.addr, dev_info.len])),
        ];
        let irq = spec_irq_props(*dev_info, use_aia);
        assert(mid =~= start + encode_items(head));
        lemma_encode_concat(head, irq);
        lemma_encode_concat(head + irq, seq![FdtItem::EndNode]);
        assert(fdt_contents(*fdt) =~= start + encode_items(spec_virtio_node(*dev_info, use_aia)));
    }
    Ok(())
}

/// The node of the serial console.
pub open spec fn spec_serial_node(dev: MmioDeviceInfo, use_aia: bool) -> Seq<FdtItem> {
    seq![
        FdtItem::BeginNode("uart@"@ + spec_hex(dev.addr as nat)),
        prop("compatible"@, FdtValue::Str("ns16550a"@)),
        prop("reg"@, FdtValue::U64Array(seq![dev.addr, dev.len])),
        prop("clock-frequency"@, FdtValue::U32(UART_CLOCK_FREQUENCY)),
        prop("current-speed"@, FdtValue::U32(UART_CURRENT_SPEED)),
    ] + spec_irq_props(dev, use_aia) + seq![FdtItem::EndNode]
}

/// Writes the node of the serial console.
///
/// It succeeds when one more node can be opened and the writer has room for
/// the tokens.
pub fn create_serial_node(fdt: &mut vm_fdt::FdtWriter, dev_info: &MmioDeviceInfo, use_aia: bool) -> (r:
    Result<(), FdtError>)
    requires
        has_gsi(*dev_info, use_aia),
    ensures
        fdt_default_header(*final(fdt)) == fdt_default_header(*old(fdt)),
        r is Ok ==> fdt_contents(*final(fdt)) == fdt_contents(*old(fdt)) + encode_items(
            spec_serial_node(*dev_info, use_aia),
        ),
        r is Ok ==> writer_state(fdt_contents(*final(fdt))) == (
            writer_state(fdt_contents(*old(fdt))).0,
            true,
        ),
        r matches Err(e) ==> e is CreateFdt,
        depth_room(fdt_contents(*old(fdt)), 1) && token_room(
            fdt_contents(*old(fdt)),
            spec_serial_node(*dev_info, use_aia).len() as int,
        ) ==> r is Ok,
{
    let ghost start = fdt_contents(*fdt);
    proof {
        lemma_property_names();
        lemma_device_property_names();
        lemma_literals();
        lemma_hex_names(dev_info.addr);
    }
    let name = format_hex_name("uart@", dev_info.addr);
    let serial = fdt_err(fdt_begin_node(fdt, name.as_str()))?;
    fdt_err(fdt_property_string(fdt, "compatible", "ns16550a"))?;
    let reg = vec![dev_info.addr, dev_info.len];
    proof {
        assert(reg@ =~= seq![dev_info.addr, dev_info.len]);
    }
    fdt_err(fdt_property_array_u64(fdt, "reg", reg.as_slice()))?;
    fdt_err(fdt_property_u32(fdt, "clock-frequency", UART_CLOCK_FREQUENCY))?;
    fdt_err(fdt_property_u32(fdt, "current-speed", UART_CURRENT_SPEED))?;
    let ghost mid = fdt_contents(*fdt);
    create_irq_props(fdt, dev_info, use_aia)?;
    fdt_err(fdt_end_node(fdt, serial))?;
    proof {
        let head = seq![
            FdtItem::BeginNode("uart@"@ + spec_hex(dev_info.addr as nat)),
            prop("compatible"@, FdtValue::Str("ns16550a"@)),
            prop("reg"@, FdtValue::U64Array(seq![dev_info.addr, dev_info.len])),
            prop("clock-frequency"@, FdtValue::U32(UART_CLOCK_FREQUENCY)),
            prop("current-speed"@, FdtValue::U32(UART_CURRENT_SPEED)),
        ];
        let irq = spec_irq_props(*dev_info, use_aia);
        assert(mid =~= start + encode_items(head));
        lemma_encode_concat(head, irq);
        lemma_encode_concat(head + irq, seq![FdtItem::EndNode]);
        assert(fdt_contents(*fdt) =~= start + encode_items(spec_serial_node(*dev_info, use_aia)));
    }
    Ok(())
}

/// The nodes of the virtio devices of `s`, in order.
pub open spec fn spec_virtio_nodes(s: Seq<MmioDeviceInfo>, use_aia: bool) -> Seq<FdtItem>
    decreases s.len(),
{
    if s.len() == 0 {
        Seq::empty()
    } else {
        spec_virtio_nodes(s.drop_last(), use_aia) + spec_virtio_node(s.last(), use_aia)
    }
}

/// The device nodes: the serial console, then the virtio devices by address.
pub open spec fn spec_devices_nodes(
    serial: Option<MmioDeviceInfo>,
    virtio: Seq<MmioDeviceInfo>,
    use_aia: bool,
) -> Seq<FdtItem> {
    (match serial {
        Some(info) => spec_serial_node(info, use_aia),
        None => Seq::empty(),
    }) + spec_virtio_nodes(spec_sort_by_addr(virtio), use_aia)
}

/// Every device of the guest has its interrupt line wherever the AIA is used.
pub open spec fn devices_have_gsi(devices: &MmioDevices, use_aia: bool) -> bool {
    &&& devices.serial matches Some(info) ==> has_gsi(info, use_aia)
    &&& forall|i: int| 0 <= i < devices.virtio@.len() ==> has_gsi(#[trigger] devices.virtio@[i], use_aia)
}

proof fn lemma_sorted_have_gsi(s: Seq<MmioDeviceInfo>, use_aia: bool)
    requires
        forall|i: int| 0 <= i < s.len() ==> has_gsi(#[trigger] s[i], use_aia),
    ensures
        forall|i: int|
            0 <= i < spec_sort_by_addr(s).len() ==> has_gsi(#[trigger] spec_sort_by_addr(s)[i], use_aia),
{
    broadcast use vstd::seq_lib::group_to_multiset_ensures;

    lemma_sort_by_addr(s);
    let t = spec_sort_by_addr(s);
    assert forall|i: int| 0 <= i < t.len() implies has_gsi(#[trigger] t[i], use_aia) by {
        assert(t.to_multiset().count(t[i]) > 0);
        assert(s.to_multiset().count(t[i]) > 0);
        let k = choose|k: int| 0 <= k < s.len() && s[k] == t[i];
        assert(has_gsi(s[k], use_aia));
    }
}

/// The nodes of a prefix of the devices are no more than those of all.
proof fn lemma_virtio_nodes_prefix(s: Seq<MmioDeviceInfo>, i: int, use_aia: bool)
    requires
        0 <= i <= s.len(),
    ensures
        spec_virtio_nodes(s.take(i), use_aia).len() <= spec_virtio_nodes(s, use_aia).len(),
    decreases s.len(),
{
    if i < s.len() {
        assert(s.drop_last().take(i) =~= s.take(i));
        lemma_virtio_nodes_prefix(s.drop_last(), i, use_aia);
    } else {
        assert(s.take(i) =~= s);
    }
}

/// Writes the nodes of the MMIO devices.
///
/// It succeeds when one more node can be opened and the writer has room for
/// the tokens.
#[verifier::rlimit(50)]
#[verifier::spinoff_prover]
pub fn create_devices_node(fdt: &mut vm_fdt::FdtWriter, devices: &MmioDevices, use_aia: bool) -> (r:
    Result<(), FdtError>)
    requires
        devices_have_gsi(devices, use_aia),
    ensures
        fdt_default_header(*final(fdt)) == fdt_default_header(*old(fdt)),
        r is Ok ==> fdt_contents(*final(fdt)) == fdt_contents(*old(fdt)) + encode_items(
            spec_devices_nodes(devices.serial, devices.virtio@, use_aia),
        ),
        r is Ok ==> writer_state(fdt_contents(*final(fdt))).0 == writer_state(
            fdt_contents(*old(fdt)),
        ).0,
        r matches Err(e) ==> e is CreateFdt,
        depth_room(fdt_contents(*old(fdt)), 1) && token_room(
            fdt_contents(*old(fdt)),
            spec_devices_nodes(devices.serial, devices.virtio@, use_aia).len() as int,
        ) ==> r is Ok,
{
    let ghost start = fdt_contents(*fdt);
    let ghost serial_items = match devices.serial {
        Some(info) => spec_serial_node(info, use_aia),
        None => Seq::<FdtItem>::empty(),
    };
    if let Some(serial_info) = &devices.serial {
        create_serial_node(fdt, serial_info, use_aia)?;
    }
    let ghost mid = fdt_contents(*fdt);
    assert(mid =~= start + encode_items(serial_items));
    let virtio_mmio = sort_by_addr(&devices.virtio);
    proof {
        lemma_sorted_have_gsi(devices.virtio@, use_aia);
    }
    let ghost total = spec_virtio_nodes(virtio_mmio@, use_aia);
    let n = virtio_mmio.len();
    let mut i: usize = 0;
    while i < n
        invariant
            n == virtio_mmio@.len(),
            0 <= i <= n,
            total == spec_virtio_nodes(virtio_mmio@, use_aia),
            forall|k: int| 0 <= k < n ==> has_gsi(#[trigger] virtio_mmio@[k], use_aia),
            fdt_contents(*fdt) == mid + encode_items(
                spec_virtio_nodes(virtio_mmio@.take(i as int), use_aia),
            ),
            writer_state(fdt_contents(*fdt)).0 == writer_state(start).0,
            start == fdt_contents(*old(fdt)),
            fdt_default_header(*fdt) == fdt_default_header(*old(fdt)),
            serial_items == match devices.serial {
                Some(info) => spec_serial_node(info, use_aia),
                None => Seq::<FdtItem>::empty(),
            },
            spec_devices_nodes(devices.serial, devices.virtio@, use_aia) == serial_items + total,
            depth_room(start, 1) && token_room(start, (serial_items.len() + total.len()) as int) ==> (
            depth_room(mid, 1) && token_room(mid, total.len() as int)),
        decreases n - i,
    {
        proof {
            lemma_virtio_nodes_prefix(virtio_mmio@, i + 1, use_aia);
            assert(virtio_mmio@.take(i + 1).drop_last() =~= virtio_mmio@.take(i as int));
        }
        create_virtio_node(fdt, &virtio_mmio[i], use_aia)?;
        proof {
            lemma_encode_concat(
                spec_virtio_nodes(virtio_mmio@.take(i as int), use_aia),
                spec_virtio_node(virtio_mmio@[i as int], use_aia),
            );
            assert(fdt_contents(*fdt) =~= mid + encode_items(
                spec_virtio_nodes(virtio_mmio@.take(i + 1), use_aia),
            ));
        }
        i = i + 1;
    }
    proof {
        assert(virtio_mmio@.take(n as int) =~= virtio_mmio@);
        lemma_encode_concat(serial_items, total);
        assert(fdt_contents(*fdt) =~= start + encode_items(
            spec_devices_nodes(devices.serial, devices.virtio@, use_aia),
        ));
    }
    Ok(())
}

/// The root node of the device tree.
pub open spec fn spec_fdt_items(
    dram: GuestRegion,
    vcpu_count: u8,
    cmdline: Seq<char>,
    serial: Option<MmioDeviceInfo>,
    virtio: Seq<MmioDeviceInfo>,
    initrd: Option<InitrdConfig>,
    features: RiscvPlatformFeatures,
) -> Seq<FdtItem> {
    seq![
        FdtItem::BeginNode(""@),
        prop("compatible"@, FdtValue::Str("linux,dummy-virt"@)),
        prop("model"@, FdtValue::Str("firecracker,riscv64-virt"@)),
        prop("#address-cells"@, FdtValue::U32(ADDRESS_CELLS)),
        prop("#size-cells"@, FdtValue::U32(SIZE_CELLS)),
    ] + spec_cpus_node(vcpu_count, features.isa) + spec_memory_node(dram) + spec_chosen_node(
        cmdline,
        serial,
        initrd,
    ) + (if features.aia {
        spec_aia_nodes(vcpu_count)
    } else {
        Seq::empty()
    }) + spec_devices_nodes(serial, virtio, features.aia) + seq![FdtItem::EndNode]
}

/// Creates the flattened device tree for this riscv64 microVM.
///
/// When every write succeeds, the result is the blob of exactly the items of
/// [`spec_fdt_items`] for the first DRAM region of the guest. Every write
/// succeeds when the command line holds no NUL and is shorter than 2^30
/// characters and the blob fits in 32-bit sizes; a command line with a NUL is
/// refused.
#[verifier::rlimit(50)]
#[verifier::spinoff_prover]
pub fn create_fdt(
    guest_mem: &GuestMemoryLayout,
    vcpu_count: u8,
    cmdline: String,
    devices: &MmioDevices,
    initrd: &Option<InitrdConfig>,
    features: RiscvPlatformFeatures,
) -> (r: Result<Vec<u8>, FdtError>)
    requires
        has_dram(guest_mem@),
        initrd matches Some(c) ==> c.address + c.size <= u64::MAX,
        devices_have_gsi(devices, features.aia),
    ensures
        r matches Err(e) ==> e is CreateFdt,
        r matches Ok(blob) ==> blob@ == fdt_blob(
            encode_items(
                spec_fdt_items(
                    first_dram(guest_mem@),
                    vcpu_count,
                    cmdline@,
                    devices.serial,
                    devices.virtio@,
                    *initrd,
                    features,
                ),
            ),
        ),
        text_ok(cmdline@) && fdt_size_bound(
            encode_items(
                spec_fdt_items(
                    first_dram(guest_mem@),
                    vcpu_count,
                    cmdline@,
                    devices.serial,
                    devices.virtio@,
                    *initrd,
                    features,
                ),
            ),
        ) <= 0xffff_ffff ==> r is Ok,
        cmdline@.contains('\0') ==> r is Err,
{
    let ghost items = spec_fdt_items(
        first_dram(guest_mem@),
        vcpu_count,
        cmdline@,
        devices.serial,
        devices.virtio@,
        *initrd,
        features,
    );
    let ghost ok = text_ok(cmdline@) && fdt_size_bound(encode_items(items)) <= 0xffff_ffff;
    proof {
        lemma_property_names();
        lemma_literals();
        crate::fdt_writer::lemma_payload_bytes_nonneg(encode_items(items));
    }
    let mut fdt = fdt_err(fdt_new())?;
    let root = fdt_err(fdt_begin_node(&mut fdt, ""))?;
    fdt_err(fdt_property_string(&mut fdt, "compatible", "linux,dummy-virt"))?;
    fdt_err(fdt_property_string(&mut fdt, "model", "firecracker,riscv64-virt"))?;
    fdt_err(fdt_property_u32(&mut fdt, "#address-cells", ADDRESS_CELLS))?;
    fdt_err(fdt_property_u32(&mut fdt, "#size-cells", SIZE_CELLS))?;
    let ghost head = seq![
        FdtItem::BeginNode(""@),
        prop("compatible"@, FdtValue::Str("linux,dummy-virt"@)),
        prop("model"@, FdtValue::Str("firecracker,riscv64-virt"@)),
        prop("#address-cells"@, FdtValue::U32(ADDRESS_CELLS)),
        prop("#size-cells"@, FdtValue::U32(SIZE_CELLS)),
    ];
    let ghost cpus = spec_cpus_node(vcpu_count, features.isa);
    let ghost mem = spec_memory_node(first_dram(guest_mem@));
    let ghost chosen = spec_chosen_node(cmdline@, devices.serial, *initrd);
    let ghost aia = if features.aia {
        spec_aia_nodes(vcpu_count)
    } else {
        Seq::<FdtItem>::empty()
    };
    let ghost devs = spec_devices_nodes(devices.serial, devices.virtio@, features.aia);
    let ghost end = seq![FdtItem::EndNode];
    assert(items == head + cpus + mem + chosen + aia + devs + end);
    let ghost c1 = fdt_contents(fdt);
    assert(c1 =~= encode_items(head));
    create_cpu_nodes(&mut fdt, vcpu_count, features.isa)?;
    create_memory_node(&mut fdt, guest_mem)?;
    create_chosen_node(&mut fdt, cmdline, devices, initrd)?;
    let ghost c4 = fdt_contents(fdt);
    if features.aia {
        create_aia_nodes(&mut fdt, vcpu_count)?;
    }
    let ghost c5 = fdt_contents(fdt);
    assert(c5 =~= c4 + encode_items(aia));
    create_devices_node(&mut fdt, devices, features.aia)?;
    fdt_err(fdt_end_node(&mut fdt, root))?;
    proof {
        lemma_encode_concat(head, cpus);
        lemma_encode_concat(head + cpus, mem);
        lemma_encode_concat(head + cpus + mem, chosen);
        lemma_encode_concat(head + cpus + mem + chosen, aia);
        lemma_encode_concat(head + cpus + mem + chosen + aia, devs);
        lemma_encode_concat(head + cpus + mem + chosen + aia + devs, end);
        assert(fdt_contents(fdt) =~= encode_items(items));
    }
    fdt_err(fdt_finish(fdt))
}

} // verus!
