use greentic_ext_runtime::pack_registry::{check_status, PackRef, RegistryError, StoreServerClient};

#[test]
fn pack_ref_parse_happy_path() {
    let r = PackRef::parse("greentic.dentist-template@1.2.0").unwrap();
    assert_eq!(r.name, "greentic.dentist-template");
    assert_eq!(r.version, "1.2.0");
}

#[test]
fn pack_ref_parse_missing_version_errors() {
    assert!(PackRef::parse("greentic.dentist-template").is_err());
}

#[test]
fn pack_ref_parse_empty_segment_errors() {
    assert!(PackRef::parse("@1.2.0").is_err());
    assert!(PackRef::parse("greentic.foo@").is_err());
}

#[test]
fn pack_ref_splits_at_the_first_at_sign() {
    let r = PackRef::parse("a@b@c").unwrap();
    assert_eq!(r.name, "a");
    assert_eq!(r.version, "b@c");
    assert!(matches!(PackRef::parse("x"), Err(RegistryError::BadRef(m)) if m == "missing @version"));
    assert!(matches!(PackRef::parse("x@"), Err(RegistryError::BadRef(m)) if m == "empty segment"));
}

#[test]
fn endpoints_are_built_under_the_packs_api() {
    let client = StoreServerClient::new("https://store.example.com/".to_string());
    let r = PackRef::parse("greentic.dentist-template@1.2.0").unwrap();
    assert_eq!(
        client.endpoint(&r, "/artifact"),
        "https://store.example.com/api/v1/packs/greentic.dentist-template/1.2.0/artifact"
    );
}

#[test]
fn only_success_statuses_pass() {
    assert!(check_status(200).is_ok());
    assert!(matches!(check_status(404), Err(RegistryError::Status(404))));
}
