use greentic_ext_runtime::state::ExtensionState;

#[test]
fn load_returns_default_when_file_missing() {
    let state = ExtensionState::load(None);
    assert!(state.is_enabled("anything", "1.0.0"));
}

#[test]
fn set_enabled_then_query() {
    let mut state = ExtensionState::default();
    state.set_enabled("ext.x", "0.1.0", false);
    assert!(!state.is_enabled("ext.x", "0.1.0"));
    state.set_enabled("ext.x", "0.1.0", true);
    assert!(state.is_enabled("ext.x", "0.1.0"));
}

#[test]
fn load_parses_existing_state_file() {
    let state = ExtensionState::load(Some(vec![
        ("ext.a@1.0.0".to_string(), false),
        ("ext.b@2.0.0".to_string(), true),
    ]));
    assert!(!state.is_enabled("ext.a", "1.0.0"));
    assert!(state.is_enabled("ext.b", "2.0.0"));
    assert!(state.is_enabled("ext.c", "1.0.0"));
    assert!(state.is_enabled("ext.a", "1.0.1"));
}

#[test]
fn setting_one_version_leaves_the_others() {
    let mut state = ExtensionState::default();
    state.set_enabled("ext.x", "0.1.0", false);
    state.set_enabled("ext.y", "0.1.0", false);
    state.set_enabled("ext.y", "0.1.0", true);
    assert!(!state.is_enabled("ext.x", "0.1.0"));
    assert!(state.is_enabled("ext.x", "0.2.0"));
    assert!(state.is_enabled("ext.y", "0.1.0"));
}

#[test]
fn a_later_stored_flag_replaces_an_earlier_one() {
    let state = ExtensionState::load(Some(vec![
        ("ext.a@1.0.0".to_string(), false),
        ("ext.a@1.0.0".to_string(), true),
    ]));
    assert!(state.is_enabled("ext.a", "1.0.0"));
}
