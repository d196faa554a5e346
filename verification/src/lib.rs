//! An adaptive difficulty-rating and puzzle-selection engine.
//!
//! Puzzles are served to players, attempts are recorded in an append-only
//! ledger, and each puzzle's difficulty is recomputed on demand from the
//! deduplicated outcomes of everyone who attempted it, with the puzzle
//! treated as a virtual competitor in a skill-rating system. Storage and
//! transport are external collaborators: callers read the ledger and the
//! player-rating table and hand their contents to the functions here.

pub mod ledger;
pub mod puzzle;
pub mod rating;
mod rng;
pub mod selector;
pub mod tokens;

use vstd::prelude::*;

verus! {

/// Why an engine operation yielded no result.
#[derive(Clone, Copy, Debug, PartialEq, Eq, Structural)]
pub enum EngineError {
    /// The backing store could not be reached.
    StorageUnavailable,
    /// No eligible puzzle, or the puzzle id is absent: a normal outcome.
    NotFound,
    /// The player identity is empty: rejected before any storage access.
    InvalidInput,
}

/// Rejects an empty player identity before any storage access.
pub fn validate_player_id(player_id: &String) -> (r: Result<(), EngineError>)
    ensures
        r == if player_id@.len() == 0 {
            Err::<(), EngineError>(EngineError::InvalidInput)
        } else {
            Ok::<(), EngineError>(())
        },
{
    if player_id.as_str().is_empty() {
        Err(EngineError::InvalidInput)
    } else {
        Ok(())
    }
}

} // verus!
