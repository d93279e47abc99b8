//! Setup of the in-kernel RISC-V AIA interrupt controller (an APLIC for wired
//! interrupts and one IMSIC interrupt file per vCPU).

use vstd::prelude::*;

use crate::layout::{
    AIA_APLIC_MEM_START, AIA_IMSIC_MEM_SIZE, AIA_IMSIC_MEM_START, AIA_IMSIC_NUM_IDS,
    GSI_LEGACY_NUM,
};

verus! {

/// KVM device type of the RISC-V AIA.
pub const KVM_DEV_TYPE_RISCV_AIA: u32 = 11;
/// Attribute group of the AIA configuration.
pub const KVM_DEV_RISCV_AIA_GRP_CONFIG: u32 = 0;
/// Configuration attribute: the AIA mode.
pub const KVM_DEV_RISCV_AIA_CONFIG_MODE: u32 = 0;
/// Configuration attribute: the number of MSI identities.
pub const KVM_DEV_RISCV_AIA_CONFIG_IDS: u32 = 1;
/// Configuration attribute: the number of wired interrupt sources.
pub const KVM_DEV_RISCV_AIA_CONFIG_SRCS: u32 = 2;
/// AIA mode that lets KVM pick hardware acceleration when it can.
pub const KVM_DEV_RISCV_AIA_MODE_AUTO: u32 = 2;
/// Attribute group of the AIA addresses.
pub const KVM_DEV_RISCV_AIA_GRP_ADDR: u32 = 1;
/// Address attribute of the APLIC; the IMSIC of hart `h` is `1 + h`.
pub const KVM_DEV_RISCV_AIA_ADDR_APLIC: u32 = 0;
/// Attribute group of the AIA control operations.
pub const KVM_DEV_RISCV_AIA_GRP_CTRL: u32 = 2;
/// Control attribute that initializes the AIA.
pub const KVM_DEV_RISCV_AIA_CTRL_INIT: u32 = 0;

/// The value handed with a device attribute.
#[derive(Clone, Copy, Debug, PartialEq, Eq, Structural)]
pub enum AiaAttrValue {
    /// No value: the attribute is a command.
    NoValue,
    /// A 32-bit value.
    U32(u32),
    /// A 64-bit value.
    U64(u64),
}

/// One attribute set on the AIA device.
#[derive(Clone, Copy, Debug, PartialEq, Eq, Structural)]
pub struct AiaDeviceAttr {
    /// The attribute group.
    pub group: u32,
    /// The attribute within its group.
    pub attr: u64,
    /// The value of the attribute.
    pub value: AiaAttrValue,
}

/// The attribute that places the IMSIC of vCPU `i`.
pub open spec fn spec_imsic_attr(i: int) -> AiaDeviceAttr {
    AiaDeviceAttr {
        group: KVM_DEV_RISCV_AIA_GRP_ADDR,
        attr: (KVM_DEV_RISCV_AIA_ADDR_APLIC + 1 + i) as u64,
        value: AiaAttrValue::U64((AIA_IMSIC_MEM_START + AIA_IMSIC_MEM_SIZE * i) as u64),
    }
}

/// The IMSIC attributes of vCPUs `0..n`.
pub open spec fn spec_imsic_attrs(n: int) -> Seq<AiaDeviceAttr>
    decreases n,
{
    if n <= 0 {
        Seq::empty()
    } else {
        spec_imsic_attrs(n - 1).push(spec_imsic_attr(n - 1))
    }
}

/// The attributes, in order, that set up the AIA for `vcpu_count` vCPUs: the
/// mode, the number of MSI identities and of wired sources, the APLIC address,
/// one IMSIC address per vCPU, and finally the initialization command.
pub open spec fn spec_aia_device_attrs(vcpu_count: u8) -> Seq<AiaDeviceAttr> {
    seq![
        AiaDeviceAttr {
            group: KVM_DEV_RISCV_AIA_GRP_CONFIG,
            attr: KVM_DEV_RISCV_AIA_CONFIG_MODE as u64,
            value: AiaAttrValue::U32(KVM_DEV_RISCV_AIA_MODE_AUTO),
        },
        AiaDeviceAttr {
            group: KVM_DEV_RISCV_AIA_GRP_CONFIG,
            attr: KVM_DEV_RISCV_AIA_CONFIG_IDS as u64,
            value: AiaAttrValue::U32(AIA_IMSIC_NUM_IDS),
        },
        AiaDeviceAttr {
            group: KVM_DEV_RISCV_AIA_GRP_CONFIG,
            attr: KVM_DEV_RISCV_AIA_CONFIG_SRCS as u64,
            value: AiaAttrValue::U32(GSI_LEGACY_NUM),
        },
        AiaDeviceAttr {
            group: KVM_DEV_RISCV_AIA_GRP_ADDR,
            attr: KVM_DEV_RISCV_AIA_ADDR_APLIC as u64,
            value: AiaAttrValue::U64(AIA_APLIC_MEM_START),
        },
    ] + spec_imsic_attrs(vcpu_count as int) + seq![
        AiaDeviceAttr {
            group: KVM_DEV_RISCV_AIA_GRP_CTRL,
            attr: KVM_DEV_RISCV_AIA_CTRL_INIT as u64,
            value: AiaAttrValue::NoValue,
        },
    ]
}

/// Returns the attributes, in the order they are set, that configure the AIA
/// device for `vcpu_count` vCPUs.
pub fn aia_device_attrs(vcpu_count: u8) -> (r: Vec<AiaDeviceAttr>)
    ensures
        r@ == spec_aia_device_attrs(vcpu_count),
{
    let mut attrs: Vec<AiaDeviceAttr> = Vec::new();
    attrs.push(
        AiaDeviceAttr {
            group: KVM_DEV_RISCV_AIA_GRP_CONFIG,
            attr: KVM_DEV_RISCV_AIA_CONFIG_MODE as u64,
            value: AiaAttrValue::U32(KVM_DEV_RISCV_AIA_MODE_AUTO),
        },
    );
    attrs.push(
        AiaDeviceAttr {
            group: KVM_DEV_RISCV_AIA_GRP_CONFIG,
            attr: KVM_DEV_RISCV_AIA_CONFIG_IDS as u64,
            value: AiaAttrValue::U32(AIA_IMSIC_NUM_IDS),
        },
    );
    attrs.push(
        AiaDeviceAttr {
            group: KVM_DEV_RISCV_AIA_GRP_CONFIG,
            attr: KVM_DEV_RISCV_AIA_CONFIG_SRCS as u64,
            value: AiaAttrValue::U32(GSI_LEGACY_NUM),
        },
    );
    attrs.push(
        AiaDeviceAttr {
            group: KVM_DEV_RISCV_AIA_GRP_ADDR,
            attr: KVM_DEV_RISCV_AIA_ADDR_APLIC as u64,
            value: AiaAttrValue::U64(AIA_APLIC_MEM_START),
        },
    );
    let ghost head = attrs@;
    let mut vcpu_id: u8 = 0;
    while vcpu_id < vcpu_count
        invariant
            vcpu_id <= vcpu_count,
            head.len() == 4,
            attrs@ == head + spec_imsic_attrs(vcpu_id as int),
        decreases vcpu_count - vcpu_id,
    {
        let imsic_addr = AIA_IMSIC_MEM_START + AIA_IMSIC_MEM_SIZE * (vcpu_id as u64);
        let imsic_attr = KVM_DEV_RISCV_AIA_ADDR_APLIC + 1 + (vcpu_id as u32);
        attrs.push(
            AiaDeviceAttr {
                group: KVM_DEV_RISCV_AIA_GRP_ADDR,
                attr: imsic_attr as u64,
                value: AiaAttrValue::U64(imsic_addr),
            },
        );
        proof {
            assert(attrs@ =~= head + spec_imsic_attrs(vcpu_id + 1));
        }
        vcpu_id = vcpu_id + 1;
    }
    attrs.push(
        AiaDeviceAttr {
            group: KVM_DEV_RISCV_AIA_GRP_CTRL,
            attr: KVM_DEV_RISCV_AIA_CTRL_INIT as u64,
            value: AiaAttrValue::NoValue,
        },
    );
    proof {
        assert(attrs@ =~= spec_aia_device_attrs(vcpu_count));
    }
    attrs
}

/// For every number of vCPUs, the AIA is set up in this order: mode 2 (KVM
/// picks acceleration when it can) in the configuration group (0), the number
/// of MSI identities and of wired sources, the APLIC address in the address
/// group (1), then one IMSIC address per vCPU, vCPU `i` under attribute `1 + i`
/// at its own page, and last the initialization command in the control
/// group (2).
pub proof fn lemma_aia_attrs_order(vcpu_count: u8)
    ensures
        ({
            let s = spec_aia_device_attrs(vcpu_count);
            &&& s.len() == vcpu_count + 5
            &&& s[0] == AiaDeviceAttr { group: 0, attr: 0, value: AiaAttrValue::U32(2) }
            &&& s[1] == AiaDeviceAttr { group: 0, attr: 1, value: AiaAttrValue::U32(AIA_IMSIC_NUM_IDS) }
            &&& s[2] == AiaDeviceAttr { group: 0, attr: 2, value: AiaAttrValue::U32(256) }
            &&& s[3] == AiaDeviceAttr { group: 1, attr: 0, value: AiaAttrValue::U64(0x0d00_0000) }
            &&& forall|i: int|
                0 <= i < vcpu_count ==> #[trigger] s[4 + i] == AiaDeviceAttr {
                    group: 1,
                    attr: (1 + i) as u64,
                    value: AiaAttrValue::U64((0x2800_0000 + 0x1000 * i) as u64),
                }
            &&& s[vcpu_count + 4] == AiaDeviceAttr { group: 2, attr: 0, value: AiaAttrValue::NoValue }
        }),
{
    lemma_imsic_attrs(vcpu_count as int);
    let s = spec_aia_device_attrs(vcpu_count);
    let m = spec_imsic_attrs(vcpu_count as int);
    assert forall|i: int| 0 <= i < vcpu_count implies #[trigger] s[4 + i] == AiaDeviceAttr {
        group: 1,
        attr: (1 + i) as u64,
        value: AiaAttrValue::U64((0x2800_0000 + 0x1000 * i) as u64),
    } by {
        assert(s[4 + i] == m[i]);
    }
}

/// The IMSIC attributes of vCPUs `0..n` place vCPU `i` at its own page
/// `AIA_IMSIC_MEM_START + i * AIA_IMSIC_MEM_SIZE` under attribute `1 + i`.
pub proof fn lemma_imsic_attrs(n: int)
    requires
        n >= 0,
    ensures
        spec_imsic_attrs(n).len() == n,
        forall|i: int| 0 <= i < n ==> #[trigger] spec_imsic_attrs(n)[i] == spec_imsic_attr(i),
    decreases n,
{
    if n > 0 {
        lemma_imsic_attrs(n - 1);
    }
}

/// Every vCPU gets its own IMSIC page, the pages of all vCPUs lie in the IMSIC
/// window past the APLIC window, and no two vCPUs share an address attribute.
pub proof fn lemma_aia_attrs_distinct(vcpu_count: u8)
    ensures
        ({
            let s = spec_aia_device_attrs(vcpu_count);
            &&& s.len() == vcpu_count + 5
            &&& forall|i: int, j: int|
                4 <= i < j < s.len() - 1 ==> (#[trigger] s[i]).attr != (#[trigger] s[j]).attr
                    && s[i].value != s[j].value
            &&& forall|i: int|
                4 <= i < s.len() - 1 ==> ((#[trigger] s[i]).value matches AiaAttrValue::U64(a) && (
                AIA_APLIC_MEM_START + 0x8000 <= AIA_IMSIC_MEM_START <= a && a + AIA_IMSIC_MEM_SIZE
                    <= AIA_IMSIC_MEM_START + 256 * AIA_IMSIC_MEM_SIZE))
        }),
{
    lemma_imsic_attrs(vcpu_count as int);
    let s = spec_aia_device_attrs(vcpu_count);
    let m = spec_imsic_attrs(vcpu_count as int);
    assert forall|i: int| 4 <= i < s.len() - 1 implies #[trigger] s[i] == m[i - 4] by {}
}

} // verus!
