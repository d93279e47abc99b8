use riscv_vmm::cpu_config::{
    dump_cpu_config, get_cpu_template, CpuConfiguration, CpuTemplateRef, CpuTemplateType, CustomCpuTemplate,
    GetCpuTemplateError, KvmCapability, StaticCpuTemplate,
};
use riscv_vmm::template::{config_to_template, strip, verify, StripError};

fn template(caps: Vec<KvmCapability>) -> CustomCpuTemplate {
    CustomCpuTemplate { kvm_capabilities: caps }
}

#[test]
fn configuration_ignores_templates() {
    let t = template(vec![KvmCapability::Add(1)]);
    let config = CpuConfiguration::new(&t).unwrap();
    assert_eq!(config, CpuConfiguration);
    assert_eq!(CpuConfiguration::apply_template(config, &t), CpuConfiguration);
    assert_eq!(dump_cpu_config(), Ok(CpuConfiguration));
    assert!(t.validate().is_ok());
}

#[test]
fn config_to_template_is_empty() {
    let t = config_to_template(&CpuConfiguration);
    assert!(t.kvm_capabilities.is_empty());
    assert!(CustomCpuTemplate::default().kvm_capabilities.is_empty());
}

#[test]
fn strip_needs_two_templates() {
    assert_eq!(strip(vec![]).err(), Some(StripError::NumberOfInputs));
    assert_eq!(strip(vec![template(vec![])]).err(), Some(StripError::NumberOfInputs));
    let stripped = strip(vec![
        template(vec![KvmCapability::Add(3)]),
        template(vec![KvmCapability::Remove(4)]),
    ])
    .unwrap();
    assert_eq!(stripped.len(), 2);
    assert_eq!(stripped[0].kvm_capabilities, vec![KvmCapability::Add(3)]);
    assert_eq!(stripped[1].kvm_capabilities, vec![KvmCapability::Remove(4)]);
}

#[test]
fn verify_accepts_every_template() {
    assert!(verify(template(vec![KvmCapability::Add(1)]), template(vec![])).is_ok());
}

#[test]
fn cpu_template_resolution() {
    let custom = Some(CpuTemplateType::Custom(template(vec![KvmCapability::Add(7)])));
    assert_eq!(get_cpu_template(&custom).unwrap().template().kvm_capabilities, vec![KvmCapability::Add(7)]);
    assert!(get_cpu_template(&None).unwrap().template().kvm_capabilities.is_empty());
    assert!(matches!(get_cpu_template(&custom).unwrap(), CpuTemplateRef::Borrowed(_)));
    assert!(matches!(get_cpu_template(&None).unwrap(), CpuTemplateRef::Owned(_)));
    assert_eq!(
        get_cpu_template(&Some(CpuTemplateType::Static(StaticCpuTemplate::NoTemplate))).err(),
        Some(GetCpuTemplateError::InvalidStaticCpuTemplate(StaticCpuTemplate::NoTemplate))
    );
}
