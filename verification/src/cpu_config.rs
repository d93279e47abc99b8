//! RISC-V CPU configuration and CPU templates.
//!
//! RISC-V templates carry no register modifiers yet: a custom template only
//! lists KVM capabilities to check, and a configuration is unchanged by a
//! template.

use vstd::prelude::*;

verus! {

/// A KVM capability that a template adds to or removes from the checked set.
#[derive(Clone, Copy, Debug, PartialEq, Eq, Structural)]
pub enum KvmCapability {
    /// Require the capability with this number.
    Add(u32),
    /// Do not require the capability with this number.
    Remove(u32),
}

/// Wrapper type containing RISC-V CPU config modifiers.
#[derive(Clone, Debug, PartialEq, Eq)]
pub struct CustomCpuTemplate {
    /// Additional kvm capabilities to check before configuring vcpus.
    pub kvm_capabilities: Vec<KvmCapability>,
}

impl CustomCpuTemplate {
    /// The empty template: no additional capability.
    pub fn new() -> (r: Self)
        ensures
            r.kvm_capabilities@ == Seq::<KvmCapability>::empty(),
    {
        CustomCpuTemplate { kvm_capabilities: Vec::new() }
    }

    /// A copy of the template.
    pub fn copy(&self) -> (r: Self)
        ensures
            r.kvm_capabilities@ == self.kvm_capabilities@,
    {
        CustomCpuTemplate { kvm_capabilities: self.kvm_capabilities.clone() }
    }

    /// Validate the correctness of the template: every RISC-V template is valid.
    pub fn validate(&self) -> (r: Result<(), serde_json::Error>)
        ensures
            r is Ok,
    {
        Ok(())
    }
}

impl Default for CustomCpuTemplate {
    fn default() -> (r: Self)
        ensures
            r.kvm_capabilities@ == Seq::<KvmCapability>::empty(),
    {
        CustomCpuTemplate::new()
    }
}

/// Errors thrown while configuring templates.
#[derive(Clone, Copy, Debug, PartialEq, Eq, Structural)]
pub enum CpuConfigurationError {
    /// RISC-V CPU templates do not support register modifiers yet.
    UnsupportedTemplate,
}

/// CPU configuration for RISC-V.
#[derive(Clone, Copy, Debug, Default, PartialEq, Eq, Structural)]
pub struct CpuConfiguration;

impl CpuConfiguration {
    /// Create new CpuConfiguration: every template gives the configuration.
    pub fn new(_cpu_template: &CustomCpuTemplate) -> (r: Result<Self, CpuConfigurationError>)
        ensures
            r == Ok::<Self, CpuConfigurationError>(CpuConfiguration),
    {
        Ok(CpuConfiguration)
    }

    /// Creates new guest CPU config based on the provided template: the
    /// configuration is left as it is.
    pub fn apply_template(self, _template: &CustomCpuTemplate) -> (r: Self)
        ensures
            r == self,
    {
        self
    }
}

/// Dumps the CPU configuration of a vCPU: RISC-V has nothing to dump.
pub fn dump_cpu_config() -> (r: Result<CpuConfiguration, crate::vcpu::KvmVcpuError>)
    ensures
        r == Ok::<CpuConfiguration, crate::vcpu::KvmVcpuError>(CpuConfiguration),
{
    Ok(CpuConfiguration)
}

/// The static CPU templates of RISC-V: none is defined.
#[derive(Clone, Copy, Debug, Default, PartialEq, Eq, Structural)]
pub enum StaticCpuTemplate {
    /// No static template.
    #[default]
    NoTemplate,
}

/// The CPU template that a machine is configured with.
#[derive(Debug)]
pub enum CpuTemplateType {
    /// A user-provided template.
    Custom(CustomCpuTemplate),
    /// A built-in template.
    Static(StaticCpuTemplate),
}

/// Errors of resolving the CPU template of a machine.
#[derive(Clone, Copy, Debug, PartialEq, Eq, Structural)]
pub enum GetCpuTemplateError {
    /// RISC-V has no static CPU template.
    InvalidStaticCpuTemplate(StaticCpuTemplate),
}

/// A CPU template, lent by the machine configuration or owned.
#[derive(Debug)]
pub enum CpuTemplateRef<'a> {
    /// The template of the machine configuration.
    Borrowed(&'a CustomCpuTemplate),
    /// A template made for the occasion.
    Owned(CustomCpuTemplate),
}

impl<'a> CpuTemplateRef<'a> {
    /// The template itself.
    pub open spec fn spec_template(&self) -> CustomCpuTemplate {
        match self {
            CpuTemplateRef::Borrowed(t) => **t,
            CpuTemplateRef::Owned(t) => *t,
        }
    }

    /// Returns the template itself.
    pub fn template(&self) -> (r: &CustomCpuTemplate)
        ensures
            *r == self.spec_template(),
    {
        match self {
            CpuTemplateRef::Borrowed(t) => t,
            CpuTemplateRef::Owned(t) => t,
        }
    }
}

/// Resolves the CPU template to use: a custom template is lent as given, no
/// template means an owned empty custom template, and a static template is
/// refused.
pub fn get_cpu_template(template: &Option<CpuTemplateType>) -> (r: Result<
    CpuTemplateRef<'_>,
    GetCpuTemplateError,
>)
    ensures
        match template {
            Some(CpuTemplateType::Custom(t)) => r matches Ok(CpuTemplateRef::Borrowed(b)) && *b == *t,
            Some(CpuTemplateType::Static(s)) => r == Err::<CpuTemplateRef<'_>, GetCpuTemplateError>(
                GetCpuTemplateError::InvalidStaticCpuTemplate(*s),
            ),
            None => r matches Ok(CpuTemplateRef::Owned(c)) && c.kvm_capabilities@ == Seq::<
                KvmCapability,
            >::empty(),
        },
{
    match template {
        Some(CpuTemplateType::Custom(t)) => Ok(CpuTemplateRef::Borrowed(t)),
        Some(CpuTemplateType::Static(s)) => Err(GetCpuTemplateError::InvalidStaticCpuTemplate(*s)),
        None => Ok(CpuTemplateRef::Owned(CustomCpuTemplate::new())),
    }
}

} // verus!
