use std::path::PathBuf;

use greentic_ext_runtime::runtime::{
    deploy_error_abi, design_error_abi, resolve_trust_root, select_version, wasm_component_path,
    DeclaredComponent, ErrorAbi, LegacyContractWarnings, TrustRootChoice,
};
use greentic_ext_runtime::{DiscoveryPaths, ExtensionHealth, ExtensionId, HealthReason};

#[test]
fn trust_root_prefers_env_then_home() {
    let explicit = resolve_trust_root(
        Some(PathBuf::from("/explicit/root")),
        Some("/env/greentic".into()),
        Some(PathBuf::from("/home/u")),
    );
    assert!(matches!(explicit, TrustRootChoice::Explicit(p) if p == PathBuf::from("/explicit/root")));
    let env = resolve_trust_root(None, Some("/env/greentic".into()), Some(PathBuf::from("/home/u")));
    assert!(matches!(env, TrustRootChoice::GreenticHome(h) if h == "/env/greentic"));
    let home = resolve_trust_root(None, None, Some(PathBuf::from("/home/u")));
    assert!(matches!(home, TrustRootChoice::UnderHomeDir(p) if p == PathBuf::from("/home/u")));
}

#[test]
fn trust_root_ignores_discovery_paths() {
    let _paths = DiscoveryPaths::new(PathBuf::from("/somewhere/else/entirely/extensions"));
    match resolve_trust_root(None, None, Some(PathBuf::from("/home/u"))) {
        TrustRootChoice::UnderHomeDir(p) => assert!(!p.starts_with("/somewhere/else/entirely")),
        other => panic!("unexpected: {other:?}"),
    }
}

#[test]
fn an_empty_greentic_home_counts_as_unset() {
    let home = resolve_trust_root(None, Some(String::new()), Some(PathBuf::from("/home/u")));
    assert!(matches!(home, TrustRootChoice::UnderHomeDir(p) if p == PathBuf::from("/home/u")));
    assert!(matches!(resolve_trust_root(None, None, None), TrustRootChoice::Unresolvable));
}

#[test]
fn the_newest_exported_version_wins() {
    assert_eq!(select_version(&[false, true, true]), Some(1));
    assert_eq!(select_version(&[true, true]), Some(0));
    assert_eq!(select_version(&[false, false]), None);
    assert_eq!(design_error_abi("0.3.0"), ErrorAbi::Base02);
    assert_eq!(design_error_abi("0.2.0"), ErrorAbi::Base01);
    assert_eq!(deploy_error_abi("0.2.0"), ErrorAbi::Base02);
    assert_eq!(deploy_error_abi("0.1.0"), ErrorAbi::Base01);
}

#[test]
fn a_legacy_contract_is_reported_once_per_extension() {
    let mut w = LegacyContractWarnings::new();
    assert!(w.should_warn("ext.a", "0.1.0", "0.3.0"));
    assert!(!w.should_warn("ext.a", "0.2.0", "0.3.0"));
    assert!(w.should_warn("ext.b", "0.1.0", "0.3.0"));
    assert!(!w.should_warn("ext.c", "0.3.0", "0.3.0"));
}

fn one_component(file: &str) -> Vec<DeclaredComponent> {
    vec![DeclaredComponent { id: "stub".into(), gtpack_file: Some(file.into()) }]
}

#[test]
fn provider_extension_prefers_extension_wasm_at_root() {
    let declared = one_component("runtime/provider.gtpack");
    assert_eq!(wasm_component_path(true, &declared).unwrap(), "extension.wasm");
}

#[test]
fn design_extension_prefers_extension_wasm_at_root() {
    let declared = one_component("runtime/component.gtpack");
    assert_eq!(wasm_component_path(true, &declared).unwrap(), "extension.wasm");
}

#[test]
fn extension_without_root_wasm_loads_from_describe_gtpack_file() {
    let declared = one_component("runtime/component.wasm");
    assert_eq!(wasm_component_path(false, &declared).unwrap(), "runtime/component.wasm");
}

#[test]
fn the_declared_component_must_be_single_and_local() {
    assert_eq!(
        wasm_component_path(false, &[]).unwrap_err(),
        "describe.runtime.components must declare at least one entry"
    );
    let two = vec![
        DeclaredComponent { id: "a".into(), gtpack_file: Some("a.wasm".into()) },
        DeclaredComponent { id: "b".into(), gtpack_file: Some("b.wasm".into()) },
    ];
    assert!(wasm_component_path(false, &two).unwrap_err().contains("more than one entry"));
    let remote = vec![DeclaredComponent { id: "main".into(), gtpack_file: None }];
    assert_eq!(
        wasm_component_path(false, &remote).unwrap_err(),
        "describe.runtime.components[\"main\"].gtpack must be set for source-dir loads (OCI-only deploy is not yet supported)"
    );
}

#[test]
fn discovery_lists_the_user_root_first() {
    let paths = DiscoveryPaths::new(PathBuf::from("/u")).with_project(PathBuf::from("/p"));
    let all = paths.all();
    assert_eq!(all, vec![&PathBuf::from("/u"), &PathBuf::from("/p")]);
    assert_eq!(DiscoveryPaths::new(PathBuf::from("/u")).all().len(), 1);
}

#[test]
fn health_and_ids() {
    assert!(ExtensionHealth::Healthy.is_healthy());
    assert!(!ExtensionHealth::Degraded(HealthReason::CycleDetected).is_healthy());
    assert_eq!(ExtensionId("greentic.x".into()).as_str(), "greentic.x");
}
