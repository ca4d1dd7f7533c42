//! The error taxonomy of the pipeline. Failures are surfaced to the caller
//! immediately: the core performs no retries and no local recovery.
use vstd::prelude::*;

verus! {

/// Everything that can go wrong while the pipeline runs.
#[derive(Clone, Copy, Debug, PartialEq, Eq, Structural)]
pub enum PipelineError {
    /// Missing or invalid endpoint or trigger configuration.
    Config,
    /// A key or address line failed to parse.
    InputFormat,
    /// An RPC call failed or the connection dropped.
    Network,
    /// A malformed or invalid secret key.
    Signing,
}

} // verus!
