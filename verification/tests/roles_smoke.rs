use greentic_ext_runtime::registry::{role_function_missing_error, role_instantiate_error, role_interface_missing_error};
use greentic_ext_runtime::types::{HostExtensionError, RoleError};
use greentic_ext_runtime::kind::ExtensionKind;
use greentic_ext_runtime::{ExtensionId, LoadedExtension, LoadedState, RuntimeError};

#[test]
fn list_roles_unknown_extension_returns_not_found() {
    let state = LoadedState::new();
    let err = state.get("does.not.exist").unwrap_err();
    assert!(matches!(err, RuntimeError::NotFound(_)), "expected NotFound, got {err:?}");
}

#[test]
fn validate_role_unknown_extension_returns_not_found() {
    let state = LoadedState::new();
    let err = state.get("does.not.exist").unwrap_err();
    assert!(matches!(err, RuntimeError::NotFound(ref id) if id == "does.not.exist"), "expected NotFound, got {err:?}");
}

#[test]
fn compile_role_unknown_extension_returns_unknown_role() {
    let state = LoadedState::new();
    let err = state.role_extension("does.not.exist").unwrap_err();
    assert!(
        matches!(err, RoleError::UnknownRole(ref id) if id == "does.not.exist"),
        "expected RoleError::UnknownRole, got {err:?}"
    );
}

#[test]
fn compile_role_host_failures_are_internal_errors() {
    match role_instantiate_error("acme.cards", "trap") {
        RoleError::Host(HostExtensionError::Internal(m)) => assert_eq!(m, "instantiate 'acme.cards': trap"),
        other => panic!("unexpected: {other:?}"),
    }
    match role_interface_missing_error("acme.cards") {
        RoleError::Host(HostExtensionError::Internal(m)) => assert_eq!(
            m,
            "extension 'acme.cards' does not export 'greentic:extension-design/roles@0.2.0'"
        ),
        other => panic!("unexpected: {other:?}"),
    }
    match role_function_missing_error() {
        RoleError::Host(HostExtensionError::Internal(m)) => assert_eq!(
            m,
            "interface 'greentic:extension-design/roles@0.2.0' does not export 'compile-role'"
        ),
        other => panic!("unexpected: {other:?}"),
    }
}

#[test]
fn compile_role_goes_to_the_loaded_extension() {
    let mut state = LoadedState::new();
    state
        .register_loaded(LoadedExtension {
            id: ExtensionId("acme.cards".to_string()),
            source_dir: "/x/cards".to_string(),
            version: "1.2.0".to_string(),
            kind: ExtensionKind::Design,
            offered: Vec::new(),
        })
        .expect("load");
    let found = state.role_extension("acme.cards").expect("loaded");
    assert_eq!(found.version, "1.2.0");
    assert!(matches!(state.role_extension("acme.other"), Err(RoleError::UnknownRole(ref id)) if id == "acme.other"));
}
