use std::path::PathBuf;

use greentic_ext_runtime::runtime::{fs_event_action, FsAction, FsEvent};
use greentic_ext_runtime::RuntimeEvent;

#[test]
fn runtime_event_has_state_file_changed_variant() {
    let event = RuntimeEvent::StateFileChanged;
    let _cloned = event.clone();
    let _ = format!("{event:?}");
}

#[test]
fn a_state_file_change_is_announced_not_reloaded() {
    let ev = FsEvent::Modified(PathBuf::from("/home/u/.greentic/extensions-state.json"));
    let action = fs_event_action(&ev, Some("extensions-state.json"), None);
    assert!(matches!(action, FsAction::AnnounceStateFile));
}

#[test]
fn a_removal_unloads_and_other_changes_reload() {
    let dir = PathBuf::from("/ext/design/greentic.demo");
    let removed = FsEvent::Removed(dir.join("describe.json"));
    assert!(matches!(
        fs_event_action(&removed, Some("describe.json"), Some(dir.clone())),
        FsAction::Unload(d) if d == dir
    ));
    let added = FsEvent::Added(dir.join("assets/icon.svg"));
    assert!(matches!(
        fs_event_action(&added, Some("icon.svg"), Some(dir.clone())),
        FsAction::Reload(d) if d == dir
    ));
    let stray = FsEvent::Modified(PathBuf::from("/tmp/stray.txt"));
    assert!(matches!(fs_event_action(&stray, Some("stray.txt"), None), FsAction::Ignore));
}
