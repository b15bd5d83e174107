//! Verified core of the Greentic designer-extension runtime: the allow-lists
//! and gates in front of what an extension may reach, the mapping of what
//! extensions answer onto host types, the capability registry derived from
//! the loaded set, and the Adaptive Cards reference extension's checks.
mod health;

pub mod adaptive_cards;
pub mod broker;
pub mod capability;
pub mod error;
pub mod host_calls;
pub mod host_ports;
pub mod json;
pub mod kind;
pub mod limits;
pub mod manifest;
pub mod net_permissions;
pub mod oauth;
pub mod pack_registry;
pub mod pool;
pub mod registry;
pub mod runtime;
pub mod signature_check;
pub mod state;
pub mod text;
pub mod tool_metadata;
pub mod types;
pub mod url_matcher;
pub mod url_parts;
pub mod wit;

pub use self::broker::{Broker, BrokerError, BrokerResult};
pub use self::capability::{CapabilityRef, ResolutionPlan};
pub use self::error::RuntimeError;
pub use self::health::{ExtensionHealth, HealthReason};
pub use self::host_ports::{InMemorySecrets, KeyTranslator, SecretsBackend, SecretsError, Translator};
pub use self::registry::{CapabilityRegistry, LoadedExtension, LoadedState, OfferedBinding};
pub use self::runtime::{DiscoveryPaths, ExtensionId, RuntimeEvent};
pub use self::types::{
    BundleArtifact, BundleSession, CompileContext, DeployExtensionError, DeployJob, DeployRequest,
    DeployStatus, Diagnostic, HostExtensionError, KnowledgeEntry, KnowledgeEntrySummary,
    PromptFragment, RoleError, RoleSpec, Severity, TargetKind, TargetSummary, ToolDefinition,
    ValidateResult,
};
pub use self::url_matcher::UrlMatcher;
