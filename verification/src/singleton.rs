use vstd::prelude::*;

verus! {

// ---------------------------------------------------------------------------
// The Singleton Guard.
//
// At startup the application attempts to bind a fixed local loopback
// address and reports the outcome here.  Holding the bound listener for the
// process lifetime is the exclusivity token; a second launch finds the
// address in use and must exit quietly.  This is a best-effort primitive: a
// stale listener of a crashed process could in theory linger until the OS
// reclaims the socket.
// ---------------------------------------------------------------------------

/// What the attempt to bind the fixed loopback address yielded.
#[derive(Debug, Clone, Copy, PartialEq, Eq, Structural)]
pub enum BindOutcome {
    /// The address was bound; the listener is the exclusivity token.
    Bound,
    /// The address is in use: another instance is already running.
    AddressInUse,
    /// The bind failed for any other reason.
    Failed,
}

/// The verdict of the singleton check.  `AlreadyRunning` is distinguished
/// from a bind fault so the launcher can exit quietly instead of reporting
/// an error.
#[derive(Debug, Clone, Copy, PartialEq, Eq, Structural)]
pub enum SingletonVerdict {
    ReadyToRun,
    AlreadyRunning,
    BindFault,
}

pub open spec fn spec_check_singleton(o: BindOutcome) -> SingletonVerdict {
    match o {
        BindOutcome::Bound => SingletonVerdict::ReadyToRun,
        BindOutcome::AddressInUse => SingletonVerdict::AlreadyRunning,
        BindOutcome::Failed => SingletonVerdict::BindFault,
    }
}

/// Interpret the bind outcome: only a successful bind lets this instance
/// run, and an address in use means another instance already does.
pub fn check_singleton(outcome: BindOutcome) -> (r: SingletonVerdict)
    ensures
        r == spec_check_singleton(outcome),
{
    match outcome {
        BindOutcome::Bound => SingletonVerdict::ReadyToRun,
        BindOutcome::AddressInUse => SingletonVerdict::AlreadyRunning,
        BindOutcome::Failed => SingletonVerdict::BindFault,
    }
}

/// Of two overlapping launches, the OS lets exactly one bind the fixed
/// address; then exactly one verdict is ready-to-run, and the other is
/// `AlreadyRunning`.
pub proof fn lemma_singleton_exclusion(a: BindOutcome, b: BindOutcome)
    requires
        (a is Bound && b is AddressInUse) || (b is Bound && a is AddressInUse),
    ensures
        (spec_check_singleton(a) is ReadyToRun) != (spec_check_singleton(b) is ReadyToRun),
        spec_check_singleton(a) is ReadyToRun ==> spec_check_singleton(b) is AlreadyRunning,
        spec_check_singleton(b) is ReadyToRun ==> spec_check_singleton(a) is AlreadyRunning,
{
}

} // verus!
