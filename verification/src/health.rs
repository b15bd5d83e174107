use vstd::prelude::*;

verus! {

/// Whether a loaded extension is fully operational.
#[derive(Debug, Clone, PartialEq, Eq)]
pub enum ExtensionHealth {
    Healthy,
    Degraded(HealthReason),
}

/// Why an extension is running in a degraded state.
#[derive(Debug, Clone, PartialEq, Eq)]
pub enum HealthReason {
    MissingRequiredCap(String),
    SignatureInvalid,
    LoadFailed(String),
    CycleDetected,
}

impl ExtensionHealth {
    /// `true` exactly for [`ExtensionHealth::Healthy`].
    pub fn is_healthy(&self) -> (r: bool)
        ensures
            r == (*self is Healthy),
    {
        match self {
            ExtensionHealth::Healthy => true,
            ExtensionHealth::Degraded(_) => false,
        }
    }
}

} // verus!
