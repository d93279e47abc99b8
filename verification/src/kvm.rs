//! KVM capabilities that the RISC-V monitor relies on.

use vstd::prelude::*;

verus! {

/// KVM capability: ioeventfd support.
pub const KVM_CAP_IOEVENTFD: u32 = 36;
/// KVM capability: user memory regions.
pub const KVM_CAP_USER_MEMORY: u32 = 3;
/// KVM capability: access to single registers.
pub const KVM_CAP_ONE_REG: u32 = 70;

/// Optional RISC-V KVM capabilities (none are probed yet).
#[derive(Clone, Copy, Debug, Default, PartialEq, Eq, Structural)]
pub struct OptionalCapabilities;

/// Minimal KVM capabilities required by the architecture-independent VMM.
pub fn default_capabilities() -> (r: [u32; 3])
    ensures
        r@ == seq![KVM_CAP_IOEVENTFD, KVM_CAP_USER_MEMORY, KVM_CAP_ONE_REG],
{
    let caps = [KVM_CAP_IOEVENTFD, KVM_CAP_USER_MEMORY, KVM_CAP_ONE_REG];
    proof {
        assert(caps@ =~= seq![KVM_CAP_IOEVENTFD, KVM_CAP_USER_MEMORY, KVM_CAP_ONE_REG]);
    }
    caps
}

/// Returns the optional capability statuses.
pub fn optional_capabilities() -> (r: OptionalCapabilities)
    ensures
        r == OptionalCapabilities,
{
    OptionalCapabilities
}

} // verus!
