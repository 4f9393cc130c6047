//! Combat formula engine and gear optimizer for a point-based combat model.
//!
//! The library computes the damage per second (DPS) a player achieves against
//! a monster, and searches every valid combination of equipment candidates for
//! the gear and stance with the highest DPS.  All scores are exact rationals,
//! so comparisons are deterministic and never involve rounding.
use vstd::prelude::*;

pub mod player;
pub mod ratio;
pub mod simulation;

verus! {

/// A structural failure of the input data; none of these is transient.
#[derive(Clone, Copy, Debug, PartialEq, Eq, Structural)]
pub enum OptimizationError {
    /// A mandatory candidate axis has no candidates at all.
    EmptyCandidatePool,
    /// A weapon candidate has an empty stance list.
    WeaponWithoutStances,
    /// A stance is missing its attack style or attack type.
    UnresolvedStance,
    /// A score is not comparable: a non-positive attack interval or a
    /// negative accuracy roll.
    NonComparableScore,
}

} // verus!
