use vstd::prelude::*;

verus! {

/// The error taxonomy of the orchestrator.
///
/// `Validation` is a local error about the shape or kind of an input and is
/// never retried; `NotFound` reports an unknown profile id; the two sidecar
/// errors distinguish a transport failure from a request the sidecar
/// understood and refused; `Chain` identifies the chain member whose
/// transformation failed and why; `Startup` means the sidecar never became
/// reachable within its bound; `AlreadyRunning` is the singleton conflict and
/// is not treated as a fault.
#[derive(Debug, Clone, PartialEq, Eq)]
pub enum OrchError {
    Validation(String),
    NotFound(String),
    SidecarUnreachable,
    SidecarRejected(String),
    Chain { member: String, reason: String },
    Startup,
    AlreadyRunning,
}

impl OrchError {
    /// A short text for display by the surrounding application.
    pub fn describe(&self) -> (r: String)
        ensures
            self is Validation ==> r@ == self->Validation_0@,
            self is NotFound ==> r@ == self->NotFound_0@,
            self is SidecarRejected ==> r@ == self->SidecarRejected_0@,
            self is Chain ==> r@ == self->reason@,
    {
        match self {
            OrchError::Validation(m) => m.clone(),
            OrchError::NotFound(id) => id.clone(),
            OrchError::SidecarUnreachable => "sidecar unreachable".to_owned(),
            OrchError::SidecarRejected(m) => m.clone(),
            OrchError::Chain { member: _, reason } => reason.clone(),
            OrchError::Startup => "sidecar failed to start".to_owned(),
            OrchError::AlreadyRunning => "already running".to_owned(),
        }
    }
}

} // verus!
