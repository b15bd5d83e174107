//! Errors the runtime reports.
use vstd::prelude::*;

verus! {

/// What can go wrong while loading, registering or dispatching to an
/// extension. Outside errors are carried by their message.
#[derive(Debug, Clone)]
pub enum RuntimeError {
    AlreadyLoaded(String),
    NotFound(String),
    SignatureInvalid { extension_id: String, reason: String },
    Contract(String),
    Wasmtime(String),
    Io(String),
    Json(String),
    Watcher(String),
    PermissionDenied(String),
}

} // verus!
