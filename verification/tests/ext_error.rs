use greentic_ext_runtime::wit::{from_composer_v01, from_design_v01, from_design_v03, ExtensionErrorV01, ExtensionErrorV02};
use greentic_ext_runtime::HostExtensionError as H;

#[test]
fn design_v01_maps_lossless() {
    assert!(matches!(from_design_v01(ExtensionErrorV01::InvalidInput("a".into())), H::InvalidInput(s) if s == "a"));
    assert!(
        matches!(from_design_v01(ExtensionErrorV01::MissingCapability("b".into())), H::MissingCapability(s) if s == "b")
    );
    assert!(
        matches!(from_design_v01(ExtensionErrorV01::PermissionDenied("c".into())), H::PermissionDenied(s) if s == "c")
    );
    assert!(matches!(from_design_v01(ExtensionErrorV01::Internal("d".into())), H::Internal(s) if s == "d"));
}

#[test]
fn design_v03_maps_all_six() {
    assert!(matches!(from_design_v03(ExtensionErrorV02::InvalidInput("a".into())), H::InvalidInput(s) if s == "a"));
    assert!(
        matches!(from_design_v03(ExtensionErrorV02::MissingCapability("b".into())), H::MissingCapability(s) if s == "b")
    );
    assert!(
        matches!(from_design_v03(ExtensionErrorV02::PermissionDenied("c".into())), H::PermissionDenied(s) if s == "c")
    );
    assert!(matches!(from_design_v03(ExtensionErrorV02::NotFound("x".into())), H::NotFound(s) if s == "x"));
    assert!(matches!(from_design_v03(ExtensionErrorV02::SchemaInvalid("y".into())), H::SchemaInvalid(s) if s == "y"));
    assert!(matches!(from_design_v03(ExtensionErrorV02::Internal("z".into())), H::Internal(s) if s == "z"));
}

#[test]
fn composer_v01_string_maps_to_internal() {
    assert!(matches!(from_composer_v01("boom".to_string()), H::Internal(s) if s == "boom"));
}
