use vstd::prelude::*;

verus! {

/// The unrecoverable failures of the randomness core. None of these is
/// retried: the caller at the outermost boundary turns them into process
/// termination with a diagnostic.
#[derive(Clone, Copy, Debug, PartialEq, Eq, Structural)]
pub enum RngError {
    /// An entropy source failed: the platform interface refused, the
    /// estimated entropy pool is too low, or the jitter harvest hit its
    /// iteration ceiling.
    EntropyUnavailable,
    /// The wall clock moved backward or repeated a tick, so a fresh
    /// personalization value cannot be issued.
    ClockRegression,
    /// A generator instance reached its output ceiling and there is no
    /// reseed path.
    ReseedLimitExceeded,
}

} // verus!
