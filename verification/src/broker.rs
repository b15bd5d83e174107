//! Permission and depth checks for cross-extension calls.
use vstd::prelude::*;
use crate::kind::ExtensionKind;
use crate::text::{concat, str_eq};

verus! {

/// Why the broker refused or failed a cross-extension call.
#[derive(Debug)]
pub enum BrokerError {
    PermissionDenied(String),
    TargetNotLoaded(String),
    FunctionNotFound(String),
    MaxDepthExceeded,
    Deadline,
}

pub type BrokerResult<T> = Result<T, BrokerError>;

/// The deepest a chain of cross-extension calls may go.
pub const MAX_DEPTH: u32 = 8;

/// Stateless gatekeeper for cross-extension calls.
#[derive(Debug, Default)]
pub struct Broker;

/// `allowlist` names the directory of `kind`.
pub open spec fn kind_allowed(allowlist: Seq<Seq<char>>, kind: ExtensionKind) -> bool {
    exists|i: int| 0 <= i < allowlist.len() && allowlist[i] == kind.dir_name_spec()
}

impl Broker {
    pub fn new() -> (r: Self) {
        Broker
    }

    /// A caller may call extensions of `target_kind` exactly when its
    /// allow-list names that kind's directory.
    pub fn check_permission(&self, caller_id: &str, allowlist: &[String], target_kind: ExtensionKind) -> (r:
        BrokerResult<()>)
        ensures
            kind_allowed(allowlist.deep_view(), target_kind) ==> r is Ok,
            !kind_allowed(allowlist.deep_view(), target_kind) ==> (r matches Err(
                BrokerError::PermissionDenied(m),
            ) && m@ == caller_id@ + " may not call "@ + target_kind.debug_name_spec()
                + " extensions"@),
    {
        let name = target_kind.dir_name();
        let n = allowlist.len();
        let mut i: usize = 0;
        while i < n
            invariant
                n == allowlist@.len(),
                i <= n,
                name@ == target_kind.dir_name_spec(),
                forall|j: int| 0 <= j < i ==> allowlist.deep_view()[j] != name@,
            decreases n - i,
        {
            assert(allowlist.deep_view()[i as int] == allowlist@[i as int]@);
            if str_eq(allowlist[i].as_str(), name) {
                return Ok(());
            }
            i = i + 1;
        }
        let mut m = concat(caller_id, " may not call ");
        m.append(target_kind.debug_name());
        m.append(" extensions");
        Err(BrokerError::PermissionDenied(m))
    }

    /// A call at `depth` is refused once the chain has reached [`MAX_DEPTH`].
    pub fn check_depth(&self, depth: u32) -> (r: BrokerResult<()>)
        ensures
            depth < MAX_DEPTH ==> r is Ok,
            depth >= MAX_DEPTH ==> r matches Err(BrokerError::MaxDepthExceeded),
    {
        if depth >= MAX_DEPTH {
            Err(BrokerError::MaxDepthExceeded)
        } else {
            Ok(())
        }
    }
}

} // verus!
