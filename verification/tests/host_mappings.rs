use greentic_ext_runtime::wit::{
    err_to_host_v2, job_to_host, target_from_wit, target_to_wit, validate_result_to_host,
    wit_role_error_to_host, ExtensionErrorV02, WitDeployJob, WitDeployStatus, WitDiagnostic, WitRoleError,
    WitSeverity, WitTargetKind, WitValidateResult,
};
use greentic_ext_runtime::{DeployExtensionError, DeployStatus, RoleError, Severity, TargetKind};

fn diag(sev: WitSeverity, code: &str) -> WitDiagnostic {
    WitDiagnostic { severity: sev, code: code.into(), message: format!("{code} message"), path: None }
}

#[test]
fn a_validate_result_keeps_its_verdict_and_diagnostics_in_order() {
    let v = WitValidateResult {
        valid: false,
        diagnostics: vec![diag(WitSeverity::Error, "e"), diag(WitSeverity::Hint, "h")],
    };
    let r = validate_result_to_host(v);
    assert!(!r.valid);
    assert_eq!(r.diagnostics.len(), 2);
    assert_eq!(r.diagnostics[0].severity, Severity::Error);
    assert_eq!(r.diagnostics[1].severity, Severity::Hint);
    assert_eq!(r.diagnostics[1].code, "h");
    assert_eq!(r.diagnostics[1].message, "h message");
}

#[test]
fn a_role_error_keeps_its_diagnostics() {
    let e = WitRoleError::InvalidInput(vec![diag(WitSeverity::Warning, "w")]);
    match wit_role_error_to_host(e) {
        RoleError::InvalidInput(ds) => {
            assert_eq!(ds.len(), 1);
            assert_eq!(ds[0].severity, Severity::Warning);
        }
        other => panic!("unexpected: {other:?}"),
    }
    assert!(matches!(
        wit_role_error_to_host(WitRoleError::TargetNotSupported(WitTargetKind::TeamsCard)),
        RoleError::TargetNotSupported(TargetKind::TeamsCard)
    ));
}

#[test]
fn target_kinds_round_trip() {
    for t in [TargetKind::AdaptiveCard, TargetKind::SlackBlockKit, TargetKind::TeamsCard, TargetKind::PlainText] {
        assert_eq!(target_from_wit(target_to_wit(t)), t);
    }
}

#[test]
fn a_deploy_job_keeps_every_field() {
    let j = WitDeployJob {
        id: "job-1".into(),
        status: WitDeployStatus::RolledBack,
        message: Some("undone".into()),
        endpoints: vec!["https://a".into()],
    };
    let h = job_to_host(j);
    assert_eq!(h.id, "job-1");
    assert!(matches!(h.status, DeployStatus::RolledBack));
    assert_eq!(h.message.as_deref(), Some("undone"));
    assert_eq!(h.endpoints, vec!["https://a".to_string()]);
    assert!(matches!(
        err_to_host_v2(ExtensionErrorV02::SchemaInvalid("s".into())),
        DeployExtensionError::SchemaInvalid(m) if m == "s"
    ));
}
