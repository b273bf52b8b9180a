//! Error taxonomy of the harvesting pipeline.

use vstd::prelude::*;

verus! {

/// What can go wrong between a remote response and a persisted game.
#[derive(Debug, Clone, Copy, PartialEq, Eq, Structural)]
pub enum HarvestError {
    /// Network failure or non-success status persisting through all retry
    /// attempts.
    Transport,
    /// Schedule response missing its expected structure.
    ScheduleParse,
    /// Game not finished, or a required per-entry field missing.
    GameValidation,
    /// A rate field absent, not a string, or not parsable as a number.
    Normalization,
}

} // verus!
