//! Host-side mirrors of the records extensions exchange with the host.
use vstd::prelude::*;

verus! {

/// A tool an extension offers.
#[derive(Debug, Clone)]
pub struct ToolDefinition {
    pub name: String,
    pub description: String,
    pub input_schema_json: String,
    pub output_schema_json: Option<String>,
    /// Runtime contexts the tool supports; absent means `["flow"]`.
    pub capabilities: Option<Vec<String>>,
    pub agentic_worker_metadata: Option<String>,
}

/// A fragment of system prompt an extension contributes.
#[derive(Debug, Clone)]
pub struct PromptFragment {
    pub section: String,
    pub content_markdown: String,
    pub priority: u32,
}

/// A knowledge entry as listed.
#[derive(Debug, Clone)]
pub struct KnowledgeEntrySummary {
    pub id: String,
    pub title: String,
    pub category: String,
    pub tags: Vec<String>,
}

/// A knowledge entry with its content.
#[derive(Debug, Clone)]
pub struct KnowledgeEntry {
    pub id: String,
    pub title: String,
    pub category: String,
    pub tags: Vec<String>,
    pub content_json: String,
}

/// How serious a diagnostic is.
#[derive(Debug, Clone, Copy, PartialEq, Eq)]
pub enum Severity {
    Error,
    Warning,
    Info,
    Hint,
}

/// One finding of a validator.
#[derive(Debug, Clone)]
pub struct Diagnostic {
    pub severity: Severity,
    pub code: String,
    pub message: String,
    pub path: Option<String>,
}

/// A deploy target a loaded deploy extension declares.
#[derive(Debug, Clone)]
pub struct TargetSummary {
    pub id: String,
    pub display_name: String,
    pub description: String,
    pub icon_path: Option<String>,
    pub supports_rollback: bool,
}

/// The outcome of validating content against an extension's schema.
#[derive(Debug, Clone)]
pub struct ValidateResult {
    pub valid: bool,
    pub diagnostics: Vec<Diagnostic>,
}

/// The payload handed to a bundle extension to render: pre-serialized flow
/// and content JSON, auxiliary files keyed by their path in the bundle, and
/// the capabilities the design uses.
#[derive(Debug, Clone)]
pub struct BundleSession {
    pub flows_json: String,
    pub contents_json: String,
    pub assets: Vec<(String, Vec<u8>)>,
    pub capabilities_used: Vec<String>,
}

impl Default for BundleSession {
    fn default() -> (r: Self)
        ensures
            r.flows_json@.len() == 0,
            r.contents_json@.len() == 0,
            r.assets@.len() == 0,
            r.capabilities_used@.len() == 0,
    {
        BundleSession {
            flows_json: String::new(),
            contents_json: String::new(),
            assets: Vec::new(),
            capabilities_used: Vec::new(),
        }
    }
}

/// What a bundle extension renders: the artefact bytes, its file name and
/// its sha256.
#[derive(Debug, Clone)]
pub struct BundleArtifact {
    pub filename: String,
    pub bytes: Vec<u8>,
    pub sha256: String,
}

/// Output channel a compiled role targets.
#[derive(Debug, Clone, Copy, PartialEq, Eq)]
pub enum TargetKind {
    AdaptiveCard,
    SlackBlockKit,
    TeamsCard,
    PlainText,
}

/// One role advertised by an extension.
#[derive(Debug, Clone)]
pub struct RoleSpec {
    pub name: String,
    pub description: String,
    pub json_schema: String,
    pub target: TargetKind,
    pub schema_version: u32,
    pub context_aware: bool,
}

/// Flow-level context handed to context-aware role compilers.
#[derive(Debug, Clone)]
pub struct CompileContext {
    pub flow_entries_json: String,
    pub flow_id: Option<String>,
    pub locale: String,
}

impl Default for CompileContext {
    fn default() -> (r: Self)
        ensures
            r.flow_entries_json@.len() == 0,
            r.flow_id is None,
            r.locale@.len() == 0,
    {
        CompileContext { flow_entries_json: String::new(), flow_id: None, locale: String::new() }
    }
}

/// A failure an extension reports through its WIT `extension-error`.
#[derive(Debug, Clone)]
pub enum HostExtensionError {
    InvalidInput(String),
    MissingCapability(String),
    PermissionDenied(String),
    NotFound(String),
    SchemaInvalid(String),
    Internal(String),
}

/// Why a `compile-role` call failed.
#[derive(Debug, Clone)]
pub enum RoleError {
    UnknownRole(String),
    InvalidInput(Vec<Diagnostic>),
    CompileFailed(String),
    TargetNotSupported(TargetKind),
    VersionNotSupported(u32),
    Host(HostExtensionError),
}

/// What the host asks a deploy extension to deploy.
#[derive(Debug, Clone)]
pub struct DeployRequest {
    pub target_id: String,
    pub artifact_bytes: Vec<u8>,
    pub credentials_json: String,
    pub config_json: String,
    pub deployment_name: String,
}

/// Where a deployment job stands.
#[derive(Debug, Clone, Copy, PartialEq, Eq)]
pub enum DeployStatus {
    Pending,
    Provisioning,
    Configuring,
    Starting,
    Running,
    Failed,
    RolledBack,
}

/// A deployment job as a deploy extension reports it.
#[derive(Debug, Clone)]
pub struct DeployJob {
    pub id: String,
    pub status: DeployStatus,
    pub message: Option<String>,
    pub endpoints: Vec<String>,
}

/// A failure a deploy extension reports.
#[derive(Debug, Clone)]
pub enum DeployExtensionError {
    InvalidInput(String),
    MissingCapability(String),
    PermissionDenied(String),
    NotFound(String),
    SchemaInvalid(String),
    Internal(String),
}

} // verus!
