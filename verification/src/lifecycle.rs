//! The lifecycle bridge: the interface through which the engine signals an
//! external fleet orchestrator.
//!
//! `ready` is sent once at process start, after startup health checks pass;
//! `shutdown` is sent by a session actor that, immediately after its own
//! deregistration, observes that no match is active. Both are fire-and-forget
//! signals: a failure is reported to the caller but never retried, and never
//! blocks session processing.

use vstd::prelude::*;

verus! {

/// A failed signal to the orchestrator.
#[derive(Debug)]
pub struct LifecycleError {
    pub message: String,
}

/// Readiness and shutdown signalling towards the fleet orchestrator.
/// Implementations wrap whatever sidecar the deployment provides.
pub trait StatusManager {
    /// Tells the orchestrator this process may start accepting matches.
    fn ready(&mut self) -> Result<(), LifecycleError>;

    /// Tells the orchestrator this process hosts no matches and may be
    /// reclaimed.
    fn shutdown(&mut self) -> Result<(), LifecycleError>;
}

} // verus!
