//! Mirrors of the WIT records that extension calls hand back, and their
//! mapping onto the host-side types.
//!
//! Every contract version has its own `extension-error`: four variants at
//! base 0.1.0, six at base 0.2.0. The mappings keep each variant and its
//! message; nothing is collapsed into free text.
use vstd::prelude::*;
use crate::types::{
    DeployExtensionError, DeployJob, DeployStatus, Diagnostic, HostExtensionError,
    KnowledgeEntrySummary, RoleError, RoleSpec, Severity, TargetKind, ValidateResult,
};

verus! {

/// WIT `extension-error` of `greentic:extension-base@0.1.0`.
#[derive(Debug, Clone)]
pub enum ExtensionErrorV01 {
    InvalidInput(String),
    MissingCapability(String),
    PermissionDenied(String),
    Internal(String),
}

/// WIT `extension-error` of `greentic:extension-base@0.2.0`.
#[derive(Debug, Clone)]
pub enum ExtensionErrorV02 {
    InvalidInput(String),
    MissingCapability(String),
    PermissionDenied(String),
    NotFound(String),
    SchemaInvalid(String),
    Internal(String),
}

/// WIT `severity`.
#[derive(Debug, Clone, Copy, PartialEq, Eq)]
pub enum WitSeverity {
    Error,
    Warning,
    Info,
    Hint,
}

/// WIT `diagnostic`.
#[derive(Debug, Clone)]
pub struct WitDiagnostic {
    pub severity: WitSeverity,
    pub code: String,
    pub message: String,
    pub path: Option<String>,
}

impl View for WitDiagnostic {
    type V = (WitSeverity, Seq<char>, Seq<char>, Option<Seq<char>>);

    open spec fn view(&self) -> Self::V {
        (
            self.severity,
            self.code@,
            self.message@,
            match self.path {
                Some(p) => Some(p@),
                None => None,
            },
        )
    }
}

/// WIT `validate-result` of the design validation interface.
#[derive(Debug, Clone)]
pub struct WitValidateResult {
    pub valid: bool,
    pub diagnostics: Vec<WitDiagnostic>,
}

/// WIT `tool-definition` of the design tools interface.
#[derive(Debug, Clone)]
pub struct WitToolDefinition {
    pub name: String,
    pub description: String,
    pub input_schema_json: String,
    pub output_schema_json: Option<String>,
}

/// WIT `capability-ref`.
#[derive(Debug, Clone)]
pub struct WitCapabilityRef {
    pub id: String,
    pub version: String,
}

/// WIT `extension-identity`.
#[derive(Debug, Clone)]
pub struct WitExtensionIdentity {
    pub id: String,
    pub version: String,
    pub kind: crate::kind::ExtensionKind,
}

/// WIT `prompt-fragment` of the design prompting interface.
#[derive(Debug, Clone)]
pub struct WitPromptFragment {
    pub section: String,
    pub content_markdown: String,
    pub priority: u32,
}

/// WIT `entry` of the design knowledge interface.
#[derive(Debug, Clone)]
pub struct WitEntry {
    pub id: String,
    pub title: String,
    pub category: String,
    pub tags: Vec<String>,
    pub content_json: String,
}

/// WIT `target-kind` of the roles interface.
#[derive(Debug, Clone, Copy, PartialEq, Eq)]
pub enum WitTargetKind {
    AdaptiveCard,
    SlackBlockKit,
    TeamsCard,
    PlainText,
}

/// WIT `role-spec`.
#[derive(Debug, Clone)]
pub struct WitRoleSpec {
    pub name: String,
    pub description: String,
    pub json_schema: String,
    pub target: WitTargetKind,
    pub schema_version: u32,
    pub context_aware: bool,
}

/// WIT `role-error`.
#[derive(Debug, Clone)]
pub enum WitRoleError {
    UnknownRole(String),
    InvalidInput(Vec<WitDiagnostic>),
    CompileFailed(String),
    TargetNotSupported(WitTargetKind),
    VersionNotSupported(u32),
    Host(ExtensionErrorV01),
}

/// WIT `deploy-status`.
#[derive(Debug, Clone, Copy, PartialEq, Eq)]
pub enum WitDeployStatus {
    Pending,
    Provisioning,
    Configuring,
    Starting,
    Running,
    Failed,
    RolledBack,
}

/// WIT `deploy-job`.
#[derive(Debug, Clone)]
pub struct WitDeployJob {
    pub id: String,
    pub status: WitDeployStatus,
    pub message: Option<String>,
    pub endpoints: Vec<String>,
}

/// WIT `entry-summary` of the knowledge interface.
#[derive(Debug, Clone)]
pub struct WitEntrySummary {
    pub id: String,
    pub title: String,
    pub category: String,
    pub tags: Vec<String>,
}

pub open spec fn host_error_of_v01(e: ExtensionErrorV01) -> HostExtensionError {
    match e {
        ExtensionErrorV01::InvalidInput(s) => HostExtensionError::InvalidInput(s),
        ExtensionErrorV01::MissingCapability(s) => HostExtensionError::MissingCapability(s),
        ExtensionErrorV01::PermissionDenied(s) => HostExtensionError::PermissionDenied(s),
        ExtensionErrorV01::Internal(s) => HostExtensionError::Internal(s),
    }
}

pub open spec fn host_error_of_v02(e: ExtensionErrorV02) -> HostExtensionError {
    match e {
        ExtensionErrorV02::InvalidInput(s) => HostExtensionError::InvalidInput(s),
        ExtensionErrorV02::MissingCapability(s) => HostExtensionError::MissingCapability(s),
        ExtensionErrorV02::PermissionDenied(s) => HostExtensionError::PermissionDenied(s),
        ExtensionErrorV02::NotFound(s) => HostExtensionError::NotFound(s),
        ExtensionErrorV02::SchemaInvalid(s) => HostExtensionError::SchemaInvalid(s),
        ExtensionErrorV02::Internal(s) => HostExtensionError::Internal(s),
    }
}

/// Map a base-0.1.0 `extension-error` (design, deploy and bundle contracts
/// before 0.2.0) onto the host error, variant for variant.
pub fn from_design_v01(e: ExtensionErrorV01) -> (r: HostExtensionError)
    ensures
        r == host_error_of_v01(e),
{
    match e {
        ExtensionErrorV01::InvalidInput(s) => HostExtensionError::InvalidInput(s),
        ExtensionErrorV01::MissingCapability(s) => HostExtensionError::MissingCapability(s),
        ExtensionErrorV01::PermissionDenied(s) => HostExtensionError::PermissionDenied(s),
        ExtensionErrorV01::Internal(s) => HostExtensionError::Internal(s),
    }
}

/// Map a base-0.2.0 `extension-error` (design 0.3.0, deploy and bundle
/// 0.2.0, composer 0.2.0) onto the host error, variant for variant.
pub fn from_design_v03(e: ExtensionErrorV02) -> (r: HostExtensionError)
    ensures
        r == host_error_of_v02(e),
{
    match e {
        ExtensionErrorV02::InvalidInput(s) => HostExtensionError::InvalidInput(s),
        ExtensionErrorV02::MissingCapability(s) => HostExtensionError::MissingCapability(s),
        ExtensionErrorV02::PermissionDenied(s) => HostExtensionError::PermissionDenied(s),
        ExtensionErrorV02::NotFound(s) => HostExtensionError::NotFound(s),
        ExtensionErrorV02::SchemaInvalid(s) => HostExtensionError::SchemaInvalid(s),
        ExtensionErrorV02::Internal(s) => HostExtensionError::Internal(s),
    }
}

/// The composer 0.1.0 `compose` error is a bare string with no category, so
/// it lands in `Internal`.
pub fn from_composer_v01(msg: String) -> (r: HostExtensionError)
    ensures
        r == HostExtensionError::Internal(msg),
{
    HostExtensionError::Internal(msg)
}

pub open spec fn severity_of(s: WitSeverity) -> Severity {
    match s {
        WitSeverity::Error => Severity::Error,
        WitSeverity::Warning => Severity::Warning,
        WitSeverity::Info => Severity::Info,
        WitSeverity::Hint => Severity::Hint,
    }
}

pub open spec fn target_of(t: WitTargetKind) -> TargetKind {
    match t {
        WitTargetKind::AdaptiveCard => TargetKind::AdaptiveCard,
        WitTargetKind::SlackBlockKit => TargetKind::SlackBlockKit,
        WitTargetKind::TeamsCard => TargetKind::TeamsCard,
        WitTargetKind::PlainText => TargetKind::PlainText,
    }
}

pub open spec fn wit_target_of(t: TargetKind) -> WitTargetKind {
    match t {
        TargetKind::AdaptiveCard => WitTargetKind::AdaptiveCard,
        TargetKind::SlackBlockKit => WitTargetKind::SlackBlockKit,
        TargetKind::TeamsCard => WitTargetKind::TeamsCard,
        TargetKind::PlainText => WitTargetKind::PlainText,
    }
}

pub open spec fn diagnostic_of(d: WitDiagnostic) -> Diagnostic {
    Diagnostic { severity: severity_of(d.severity), code: d.code, message: d.message, path: d.path }
}

/// Map a WIT severity onto the host severity.
pub fn severity_to_host(s: WitSeverity) -> (r: Severity)
    ensures
        r == severity_of(s),
{
    match s {
        WitSeverity::Error => Severity::Error,
        WitSeverity::Warning => Severity::Warning,
        WitSeverity::Info => Severity::Info,
        WitSeverity::Hint => Severity::Hint,
    }
}

/// Map a WIT diagnostic onto the host diagnostic.
pub fn wit_diagnostic_to_host(d: WitDiagnostic) -> (r: Diagnostic)
    ensures
        r == diagnostic_of(d),
{
    Diagnostic {
        severity: severity_to_host(d.severity),
        code: d.code,
        message: d.message,
        path: d.path,
    }
}

/// Map a host target kind onto the WIT target kind.
pub fn target_to_wit(t: TargetKind) -> (r: WitTargetKind)
    ensures
        r == wit_target_of(t),
        target_of(r) == t,
{
    match t {
        TargetKind::AdaptiveCard => WitTargetKind::AdaptiveCard,
        TargetKind::SlackBlockKit => WitTargetKind::SlackBlockKit,
        TargetKind::TeamsCard => WitTargetKind::TeamsCard,
        TargetKind::PlainText => WitTargetKind::PlainText,
    }
}

/// Map a WIT target kind onto the host target kind.
pub fn target_from_wit(t: WitTargetKind) -> (r: TargetKind)
    ensures
        r == target_of(t),
        wit_target_of(r) == t,
{
    match t {
        WitTargetKind::AdaptiveCard => TargetKind::AdaptiveCard,
        WitTargetKind::SlackBlockKit => TargetKind::SlackBlockKit,
        WitTargetKind::TeamsCard => TargetKind::TeamsCard,
        WitTargetKind::PlainText => TargetKind::PlainText,
    }
}

/// Map a WIT role spec onto the host role spec.
pub fn wit_role_spec_to_host(s: WitRoleSpec) -> (r: RoleSpec)
    ensures
        r == (RoleSpec {
            name: s.name,
            description: s.description,
            json_schema: s.json_schema,
            target: target_of(s.target),
            schema_version: s.schema_version,
            context_aware: s.context_aware,
        }),
{
    RoleSpec {
        name: s.name,
        description: s.description,
        json_schema: s.json_schema,
        target: target_from_wit(s.target),
        schema_version: s.schema_version,
        context_aware: s.context_aware,
    }
}

/// Map the roles interface's base-0.1.0 `extension-error` onto the host
/// error.
pub fn wit_extension_error_to_host(e: ExtensionErrorV01) -> (r: HostExtensionError)
    ensures
        r == host_error_of_v01(e),
{
    from_design_v01(e)
}

/// Map a WIT role error onto the host role error, converting each diagnostic
/// of an invalid input.
pub fn wit_role_error_to_host(e: WitRoleError) -> (r: RoleError)
    ensures
        match e {
            WitRoleError::UnknownRole(s) => r == RoleError::UnknownRole(s),
            WitRoleError::InvalidInput(ds) => r matches RoleError::InvalidInput(hs) && hs@
                == ds@.map_values(|d: WitDiagnostic| diagnostic_of(d)),
            WitRoleError::CompileFailed(s) => r == RoleError::CompileFailed(s),
            WitRoleError::TargetNotSupported(t) => r == RoleError::TargetNotSupported(target_of(t)),
            WitRoleError::VersionNotSupported(v) => r == RoleError::VersionNotSupported(v),
            WitRoleError::Host(h) => r == RoleError::Host(host_error_of_v01(h)),
        },
{
    match e {
        WitRoleError::UnknownRole(s) => RoleError::UnknownRole(s),
        WitRoleError::InvalidInput(diags) => {
            let ghost all = diags@;
            let mut rest = diags;
            let mut out: Vec<Diagnostic> = Vec::new();
            while rest.len() > 0
                invariant
                    out@.len() + rest@.len() == all.len(),
                    rest@ =~= all.subrange(out@.len() as int, all.len() as int),
                    out@ =~= all.subrange(0, out@.len() as int).map_values(
                        |d: WitDiagnostic| diagnostic_of(d),
                    ),
                decreases rest@.len(),
            {
                let k = out.len();
                let d = rest.remove(0);
                assert(d == all[k as int]);
                out.push(wit_diagnostic_to_host(d));
                assert(all.subrange(0, k + 1).map_values(|d: WitDiagnostic| diagnostic_of(d))
                    =~= all.subrange(0, k as int).map_values(|d: WitDiagnostic| diagnostic_of(d)).push(
                    diagnostic_of(all[k as int]),
                ));
            }
            assert(all.subrange(0, all.len() as int) =~= all);
            RoleError::InvalidInput(out)
        },
        WitRoleError::CompileFailed(s) => RoleError::CompileFailed(s),
        WitRoleError::TargetNotSupported(t) => RoleError::TargetNotSupported(target_from_wit(t)),
        WitRoleError::VersionNotSupported(v) => RoleError::VersionNotSupported(v),
        WitRoleError::Host(h) => RoleError::Host(wit_extension_error_to_host(h)),
    }
}

pub open spec fn deploy_status_of(s: WitDeployStatus) -> DeployStatus {
    match s {
        WitDeployStatus::Pending => DeployStatus::Pending,
        WitDeployStatus::Provisioning => DeployStatus::Provisioning,
        WitDeployStatus::Configuring => DeployStatus::Configuring,
        WitDeployStatus::Starting => DeployStatus::Starting,
        WitDeployStatus::Running => DeployStatus::Running,
        WitDeployStatus::Failed => DeployStatus::Failed,
        WitDeployStatus::RolledBack => DeployStatus::RolledBack,
    }
}

/// Map a WIT deploy job onto the host deploy job.
pub fn job_to_host(j: WitDeployJob) -> (r: DeployJob)
    ensures
        r == (DeployJob {
            id: j.id,
            status: deploy_status_of(j.status),
            message: j.message,
            endpoints: j.endpoints,
        }),
{
    let status = match j.status {
        WitDeployStatus::Pending => DeployStatus::Pending,
        WitDeployStatus::Provisioning => DeployStatus::Provisioning,
        WitDeployStatus::Configuring => DeployStatus::Configuring,
        WitDeployStatus::Starting => DeployStatus::Starting,
        WitDeployStatus::Running => DeployStatus::Running,
        WitDeployStatus::Failed => DeployStatus::Failed,
        WitDeployStatus::RolledBack => DeployStatus::RolledBack,
    };
    DeployJob { id: j.id, status, message: j.message, endpoints: j.endpoints }
}

/// Map a deploy extension's base-0.1.0 error onto the host deploy error.
pub fn err_to_host(e: ExtensionErrorV01) -> (r: DeployExtensionError)
    ensures
        r == match e {
            ExtensionErrorV01::InvalidInput(m) => DeployExtensionError::InvalidInput(m),
            ExtensionErrorV01::MissingCapability(m) => DeployExtensionError::MissingCapability(m),
            ExtensionErrorV01::PermissionDenied(m) => DeployExtensionError::PermissionDenied(m),
            ExtensionErrorV01::Internal(m) => DeployExtensionError::Internal(m),
        },
{
    match e {
        ExtensionErrorV01::InvalidInput(m) => DeployExtensionError::InvalidInput(m),
        ExtensionErrorV01::MissingCapability(m) => DeployExtensionError::MissingCapability(m),
        ExtensionErrorV01::PermissionDenied(m) => DeployExtensionError::PermissionDenied(m),
        ExtensionErrorV01::Internal(m) => DeployExtensionError::Internal(m),
    }
}

/// Map a deploy extension's base-0.2.0 error onto the host deploy error.
pub fn err_to_host_v2(e: ExtensionErrorV02) -> (r: DeployExtensionError)
    ensures
        r == match e {
            ExtensionErrorV02::InvalidInput(m) => DeployExtensionError::InvalidInput(m),
            ExtensionErrorV02::MissingCapability(m) => DeployExtensionError::MissingCapability(m),
            ExtensionErrorV02::PermissionDenied(m) => DeployExtensionError::PermissionDenied(m),
            ExtensionErrorV02::NotFound(m) => DeployExtensionError::NotFound(m),
            ExtensionErrorV02::SchemaInvalid(m) => DeployExtensionError::SchemaInvalid(m),
            ExtensionErrorV02::Internal(m) => DeployExtensionError::Internal(m),
        },
{
    match e {
        ExtensionErrorV02::InvalidInput(m) => DeployExtensionError::InvalidInput(m),
        ExtensionErrorV02::MissingCapability(m) => DeployExtensionError::MissingCapability(m),
        ExtensionErrorV02::PermissionDenied(m) => DeployExtensionError::PermissionDenied(m),
        ExtensionErrorV02::NotFound(m) => DeployExtensionError::NotFound(m),
        ExtensionErrorV02::SchemaInvalid(m) => DeployExtensionError::SchemaInvalid(m),
        ExtensionErrorV02::Internal(m) => DeployExtensionError::Internal(m),
    }
}

/// Map a WIT knowledge entry summary onto the host summary.
pub fn wit_summary_to_host(s: WitEntrySummary) -> (r: KnowledgeEntrySummary)
    ensures
        r == (KnowledgeEntrySummary { id: s.id, title: s.title, category: s.category, tags: s.tags }),
{
    KnowledgeEntrySummary { id: s.id, title: s.title, category: s.category, tags: s.tags }
}

/// Map a WIT validate-result onto the host's: the verdict as given, each
/// diagnostic mapped in order.
pub fn validate_result_to_host(v: WitValidateResult) -> (r: ValidateResult)
    ensures
        r.valid == v.valid,
        r.diagnostics@ == v.diagnostics@.map_values(|d: WitDiagnostic| diagnostic_of(d)),
{
    let WitValidateResult { valid, diagnostics } = v;
    let ghost all = diagnostics@;
    let mut rest = diagnostics;
    let mut out: Vec<Diagnostic> = Vec::new();
    let n = rest.len();
    let mut i: usize = 0;
    while i < n
        invariant
            n == all.len(),
            i <= n,
            rest@ =~= all.subrange(i as int, n as int),
            out@ =~= all.subrange(0, i as int).map_values(|d: WitDiagnostic| diagnostic_of(d)),
        decreases n - i,
    {
        let d = rest.remove(0);
        out.push(wit_diagnostic_to_host(d));
        assert(all.subrange(0, i + 1) =~= all.subrange(0, i as int).push(all[i as int]));
        i = i + 1;
    }
    assert(all.subrange(0, n as int) =~= all);
    ValidateResult { valid, diagnostics: out }
}

} // verus!
