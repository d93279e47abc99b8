//! The RISC-V side of the CPU template helper: dumping, stripping and
//! verifying templates.

use vstd::prelude::*;

use crate::cpu_config::{CpuConfiguration, CustomCpuTemplate, KvmCapability};

verus! {

/// Errors of stripping templates.
#[derive(Clone, Copy, Debug, PartialEq, Eq, Structural)]
pub enum StripError {
    /// Stripping needs at least two templates.
    NumberOfInputs,
}

/// Errors of verifying a template against a configuration.
#[derive(Debug, PartialEq, Eq)]
pub enum VerifyError {
    /// A modifier of the template is missing from the configuration.
    KeyNotFound(String),
    /// A modifier of the template differs from the configuration.
    ValueMismatch(String),
}

/// Turns a CPU configuration into a template: RISC-V configurations carry no
/// modifier, so this is the empty template.
pub fn config_to_template(_cpu_config: &CpuConfiguration) -> (r: CustomCpuTemplate)
    ensures
        r.kvm_capabilities@ == Seq::<KvmCapability>::empty(),
{
    CustomCpuTemplate::new()
}

/// Strips the modifiers common to all templates: RISC-V templates have no
/// modifiers to strip, so they come back unchanged. At least two templates are
/// needed.
pub fn strip(templates: Vec<CustomCpuTemplate>) -> (r: Result<Vec<CustomCpuTemplate>, StripError>)
    ensures
        templates.len() < 2 ==> r == Err::<Vec<CustomCpuTemplate>, StripError>(
            StripError::NumberOfInputs,
        ),
        templates.len() >= 2 ==> r == Ok::<Vec<CustomCpuTemplate>, StripError>(templates),
{
    if templates.len() < 2 {
        return Err(StripError::NumberOfInputs);
    }
    Ok(templates)
}

/// Verifies that a configuration matches a template: every RISC-V template
/// matches.
pub fn verify(_cpu_template: CustomCpuTemplate, _cpu_config: CustomCpuTemplate) -> (r: Result<
    (),
    VerifyError,
>)
    ensures
        r is Ok,
{
    Ok(())
}

} // verus!
