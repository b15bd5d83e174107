use greentic_ext_runtime::{InMemorySecrets, KeyTranslator, SecretsBackend, SecretsError, Translator};

#[test]
fn key_translator_returns_key_for_t() {
    let t = KeyTranslator;
    assert_eq!(t.t("greentic.test.hello"), "greentic.test.hello");
}

#[test]
fn key_translator_substitutes_args_for_tf() {
    let t = KeyTranslator;
    let out = t.tf("greentic.test.hello.{}", &[("name", "Bima")]);
    assert_eq!(out, "greentic.test.hello.{}");
}

#[test]
fn in_memory_secrets_returns_value_when_present() {
    let mut s = InMemorySecrets::default();
    s.insert("api.openai.com/api_key", "sk-test");
    let v = s.get("api.openai.com/api_key").unwrap();
    assert_eq!(v, "sk-test");
}

#[test]
fn in_memory_secrets_returns_not_found_when_absent() {
    let s = InMemorySecrets::default();
    let err = s.get("api.openai.com/api_key").unwrap_err();
    assert!(matches!(err, SecretsError::NotFound(_)));
}

#[test]
fn a_later_insert_replaces_the_earlier_value_and_leaves_other_keys() {
    let mut s = InMemorySecrets::new();
    s.insert("a", "1");
    s.insert("b", "2");
    s.insert("a", "3");
    assert_eq!(s.get("a").unwrap(), "3");
    assert_eq!(s.get("b").unwrap(), "2");
    assert!(matches!(s.get("c"), Err(SecretsError::NotFound(k)) if k == "c"));
}
