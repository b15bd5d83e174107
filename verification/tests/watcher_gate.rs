use greentic_ext_runtime::kind::ExtensionKind;
use greentic_ext_runtime::registry::{rebuild_registry, OfferedCapability};
use greentic_ext_runtime::{ExtensionId, LoadedExtension, LoadedState, RuntimeError, RuntimeEvent};

fn ext(id: &str, dir: &str, version: &str, caps: &[(&str, &str)]) -> LoadedExtension {
    LoadedExtension {
        id: ExtensionId(id.to_string()),
        source_dir: dir.to_string(),
        version: version.to_string(),
        kind: ExtensionKind::Design,
        offered: caps
            .iter()
            .map(|(c, v)| OfferedCapability { id: (*c).to_string(), version: (*v).to_string() })
            .collect(),
    }
}

fn offered_caps(state: &LoadedState, extension_id: &str) -> Vec<String> {
    let mut caps: Vec<String> = state
        .capability_registry()
        .offerings()
        .iter()
        .filter(|o| o.extension_id == extension_id)
        .map(|o| o.cap_id.clone())
        .collect();
    caps.sort();
    caps
}

#[test]
fn registry_evicts_prior_offerings_on_replace() {
    let mut state = LoadedState::new();
    state
        .register_loaded(ext("greentic.evict", "/x/evict", "0.1.0", &[("greentic:test/old", "1.0.0")]))
        .expect("first load");
    state
        .handle_added_or_modified(ext("greentic.evict", "/x/evict", "0.2.0", &[("greentic:test/new", "1.0.0")]))
        .expect("reload");
    assert_eq!(offered_caps(&state, "greentic.evict"), vec!["greentic:test/new".to_string()]);
}

#[test]
fn registry_does_not_duplicate_offerings_on_reload() {
    let mut state = LoadedState::new();
    for _ in 0..3 {
        state
            .register_loaded(ext("greentic.dupe", "/x/dupe", "0.1.0", &[("greentic:test/ping", "1.0.0")]))
            .expect("load");
    }
    assert_eq!(offered_caps(&state, "greentic.dupe"), vec!["greentic:test/ping".to_string()]);
    assert_eq!(state.loaded().len(), 1);
}

#[test]
fn registry_drops_offerings_on_removal() {
    let mut state = LoadedState::new();
    state
        .register_loaded(ext("greentic.removed", "/x/removed", "0.1.0", &[("greentic:test/ping", "1.0.0")]))
        .expect("load");
    assert_eq!(offered_caps(&state, "greentic.removed"), vec!["greentic:test/ping".to_string()]);

    let event = state.handle_removal("/x/removed");

    assert!(matches!(event, Some(RuntimeEvent::ExtensionRemoved(id)) if id.0 == "greentic.removed"));
    assert!(state.loaded().is_empty());
    assert!(offered_caps(&state, "greentic.removed").is_empty());
}

#[test]
fn registry_gains_offerings_on_watcher_add() {
    let mut state = LoadedState::new();
    let event = state
        .handle_added_or_modified(ext("greentic.added", "/x/added", "0.1.0", &[("greentic:test/ping", "1.0.0")]))
        .expect("add");
    assert!(matches!(event, RuntimeEvent::ExtensionInstalled(id) if id.0 == "greentic.added"));
    assert_eq!(offered_caps(&state, "greentic.added"), vec!["greentic:test/ping".to_string()]);
}

#[test]
fn a_reload_announces_the_version_it_replaced() {
    let mut state = LoadedState::new();
    state.register_loaded(ext("greentic.up", "/x/up", "0.1.0", &[])).unwrap();
    let event = state.handle_added_or_modified(ext("greentic.up", "/x/up", "0.2.0", &[])).unwrap();
    assert!(matches!(
        event,
        RuntimeEvent::ExtensionUpdated { id, prev_version } if id.0 == "greentic.up" && prev_version == "0.1.0"
    ));
}

#[test]
fn a_bad_offered_version_leaves_everything_as_it_was() {
    let mut state = LoadedState::new();
    state
        .register_loaded(ext("greentic.ok", "/x/ok", "0.1.0", &[("greentic:test/ping", "1.0.0")]))
        .unwrap();
    let err = state
        .register_loaded(ext("greentic.bad", "/x/bad", "0.1.0", &[("greentic:test/pong", "not-a-version")]))
        .unwrap_err();
    match err {
        RuntimeError::Wasmtime(m) => assert!(m.starts_with("bad offered version: "), "got: {m}"),
        other => panic!("unexpected: {other:?}"),
    }
    assert_eq!(state.loaded().len(), 1);
    assert_eq!(offered_caps(&state, "greentic.ok"), vec!["greentic:test/ping".to_string()]);
    assert!(offered_caps(&state, "greentic.bad").is_empty());
}

#[test]
fn removing_an_unknown_dir_changes_nothing() {
    let mut state = LoadedState::new();
    state.register_loaded(ext("greentic.keep", "/x/keep", "0.1.0", &[("greentic:test/ping", "1.0.0")])).unwrap();
    assert!(state.handle_removal("/x/other").is_none());
    assert_eq!(state.loaded().len(), 1);
}

#[test]
fn the_registry_parses_offered_versions() {
    let loaded = vec![ext("greentic.v", "/x/v", "0.1.0", &[("greentic:test/ping", "1.2.3-beta.1+build.5")])];
    let registry = rebuild_registry(&loaded).unwrap();
    let b = &registry.offerings()[0];
    assert_eq!((b.version.major, b.version.minor, b.version.patch), (1, 2, 3));
    assert_eq!(b.version.pre, "beta.1");
    assert_eq!(b.version.build, "build.5");
    assert_eq!(b.extension_id, "greentic.v");
    assert_eq!(b.export_path, "");
}

#[test]
fn an_empty_offered_version_fails_the_rebuild() {
    let loaded = vec![ext("greentic.e", "/x/e", "0.1.0", &[("greentic:test/ping", "")])];
    assert!(rebuild_registry(&loaded).is_err());
}
