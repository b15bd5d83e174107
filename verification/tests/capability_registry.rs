use greentic_ext_runtime::capability::CapabilityRef;
use greentic_ext_runtime::kind::ExtensionKind;
use greentic_ext_runtime::registry::SemVer;
use greentic_ext_runtime::{CapabilityRegistry, OfferedBinding};

fn cap_ref(id: &str, v: &str) -> CapabilityRef {
    CapabilityRef { id: id.to_string(), version: v.to_string() }
}

fn offer(ext: &str, cap: &str, v: &str, export_path: &str) -> OfferedBinding {
    OfferedBinding {
        extension_id: ext.into(),
        cap_id: cap.into(),
        version: SemVer::parse(v).unwrap(),
        kind: ExtensionKind::Design,
        export_path: export_path.into(),
    }
}

#[test]
fn matches_caret_version() {
    let mut r = CapabilityRegistry::new();
    r.add_offering(offer("x.offerer", "greentic:x/y", "1.2.5", "ext/y.func"));
    let plan = r.resolve("x.consumer", &[cap_ref("greentic:x/y", "^1.0")]);
    assert!(plan.unresolved.is_empty());
    assert_eq!(plan.resolved.len(), 1);
}

#[test]
fn degrades_on_missing_cap() {
    let r = CapabilityRegistry::new();
    let plan = r.resolve("x.consumer", &[cap_ref("greentic:nope/here", "^1.0")]);
    assert_eq!(plan.unresolved.len(), 1);
    assert!(plan.resolved.is_empty());
}

#[test]
fn picks_highest_compatible_semver() {
    let mut r = CapabilityRegistry::new();
    for v in ["1.0.0", "1.2.0", "1.5.0", "2.0.0"] {
        r.add_offering(offer(&format!("x.offer-{v}"), "greentic:x/y", v, "e"));
    }
    let plan = r.resolve("x.consumer", &[cap_ref("greentic:x/y", "^1.0")]);
    let picked = plan.resolved.first().unwrap();
    assert_eq!((picked.version.major, picked.version.minor, picked.version.patch), (1, 5, 0));
}

#[test]
fn a_release_outranks_its_pre_release_and_a_bad_requirement_resolves_nothing() {
    let mut r = CapabilityRegistry::new();
    r.add_offering(offer("x.pre", "greentic:x/y", "1.3.0-rc.1", "e"));
    r.add_offering(offer("x.rel", "greentic:x/y", "1.3.0", "e"));
    r.add_offering(offer("x.old", "greentic:x/y", "1.2.9", "e"));
    let plan = r.resolve("c", &[cap_ref("greentic:x/y", ">=1.3.0-rc.1")]);
    assert_eq!(plan.consumer, "c");
    assert_eq!(plan.resolved[0].extension_id, "x.rel");
    let plan = r.resolve("c", &[cap_ref("greentic:x/y", "not a requirement"), cap_ref("greentic:x/y", "~1.2")]);
    assert_eq!(plan.unresolved.len(), 1);
    assert_eq!(plan.unresolved[0].version, "not a requirement");
    assert_eq!(plan.resolved[0].extension_id, "x.old");
}

#[test]
fn a_capability_required_twice_is_resolved_once_by_the_later_requirement() {
    let mut r = CapabilityRegistry::new();
    r.add_offering(offer("x.one", "greentic:x/y", "1.4.0", "e"));
    r.add_offering(offer("x.two", "greentic:x/y", "2.1.0", "e"));
    let plan = r.resolve("c", &[cap_ref("greentic:x/y", "^1"), cap_ref("greentic:x/y", "^2")]);
    assert_eq!(plan.resolved.len(), 1);
    assert_eq!(plan.resolved[0].extension_id, "x.two");
}

#[test]
fn pre_releases_of_one_version_are_ranked_by_semver() {
    let mut r = CapabilityRegistry::new();
    r.add_offering(offer("x.alpha", "greentic:x/y", "1.0.0-alpha", "e"));
    r.add_offering(offer("x.beta", "greentic:x/y", "1.0.0-beta", "e"));
    r.add_offering(offer("x.alpha2", "greentic:x/y", "1.0.0-alpha.2", "e"));
    let plan = r.resolve("c", &[cap_ref("greentic:x/y", "^1.0.0-alpha")]);
    assert_eq!(plan.resolved[0].extension_id, "x.beta");
}
