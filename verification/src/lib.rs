//! A declarative resource controller library: it classifies watched custom
//! resource instances from their spec, plans idempotent status patches and
//! domain events, fixes the requeue policy for successes and failures, keeps
//! per-process shared state and metrics consistent, and serializes reconciles
//! per instance identity. All I/O and environment reads (watch stream,
//! status patch, event publish, the clock) are left to the surrounding
//! process, which hands their results in as plain values; this crate holds
//! the decisions.

use vstd::prelude::*;

pub mod dispatch;
pub mod engine;
pub mod manager;
pub mod resource;
pub mod state;
pub mod text;

verus! {

/// Errors surfaced by reconciliation and startup. Reconcile-level errors are
/// recoverable (routed through the error policy); the startup error is fatal.
#[derive(Clone, Debug)]
pub enum Error {
    /// A status patch or event publish against the API server failed;
    /// carries the transport layer's message.
    KubeError(String),
    /// Startup found the custom resource type unregistered with the server.
    CrdNotInstalled,
}

impl Error {
    /// Human-readable description of the error, with a remediation hint for
    /// the fatal startup case.
    pub fn message(&self) -> (m: String)
        ensures
            self matches Error::KubeError(cause) ==> m@ == "api error: "@ + cause@,
            self is CrdNotInstalled ==> m@ == "custom resource type not registered: apply the schema first"@,
    {
        match self {
            Error::KubeError(cause) => {
                let mut m = String::from_str("api error: ");
                m.append(cause.as_str());
                m
            },
            Error::CrdNotInstalled => String::from_str(
                "custom resource type not registered: apply the schema first",
            ),
        }
    }
}

} // verus!
