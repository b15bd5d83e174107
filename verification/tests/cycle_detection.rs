use greentic_ext_runtime::capability::CapabilityRef;
use greentic_ext_runtime::kind::ExtensionKind;
use greentic_ext_runtime::registry::SemVer;
use greentic_ext_runtime::{CapabilityRegistry, OfferedBinding};

fn offer(ext: &str, cap: &str, v: &str) -> OfferedBinding {
    OfferedBinding {
        extension_id: ext.into(),
        cap_id: cap.into(),
        version: SemVer::parse(v).unwrap(),
        kind: ExtensionKind::Design,
        export_path: "e".into(),
    }
}

fn require(id: &str, v: &str) -> CapabilityRef {
    CapabilityRef { id: id.to_string(), version: v.to_string() }
}

#[test]
fn detects_direct_cycle() {
    let mut r = CapabilityRegistry::new();
    r.add_offering(offer("a", "greentic:a/offered", "1.0.0"));
    r.add_offering(offer("b", "greentic:b/offered", "1.0.0"));
    let cycle = r.detect_cycle(&[
        ("a".to_string(), vec![require("greentic:b/offered", "^1.0")]),
        ("b".to_string(), vec![require("greentic:a/offered", "^1.0")]),
    ]);
    assert!(cycle.contains(&"a".to_string()));
    assert!(cycle.contains(&"b".to_string()));
}

#[test]
fn no_cycle_for_linear_dependency() {
    let mut r = CapabilityRegistry::new();
    r.add_offering(offer("a", "greentic:a/offered", "1.0.0"));
    r.add_offering(offer("b", "greentic:b/offered", "1.0.0"));
    let cycle = r.detect_cycle(&[
        ("a".to_string(), vec![require("greentic:b/offered", "^1.0")]),
        ("b".to_string(), vec![]),
    ]);
    assert!(cycle.is_empty());
}

#[test]
fn a_longer_cycle_is_found_and_consumers_off_it_are_left_out() {
    let mut r = CapabilityRegistry::new();
    for x in ["a", "b", "c", "d"] {
        r.add_offering(offer(x, &format!("greentic:{x}/offered"), "1.0.0"));
    }
    let cycle = r.detect_cycle(&[
        ("d".to_string(), vec![require("greentic:a/offered", "^1")]),
        ("a".to_string(), vec![require("greentic:b/offered", "^1")]),
        ("b".to_string(), vec![require("greentic:c/offered", "^1")]),
        ("c".to_string(), vec![require("greentic:a/offered", "^1")]),
    ]);
    assert_eq!(cycle, vec!["a".to_string(), "b".to_string(), "c".to_string()]);
    let self_loop = r.detect_cycle(&[("a".to_string(), vec![require("greentic:a/offered", "^1")])]);
    assert_eq!(self_loop, vec!["a".to_string()]);
    assert!(r.detect_cycle(&[]).is_empty());
}
