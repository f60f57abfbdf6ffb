//! Display score for ranked results.
//!
//! The score is purely presentational: it is computed from the item's
//! zero-based position in the already-ordered result sequence and has no
//! bearing on the ordering itself.

use vstd::prelude::*;

verus! {

/// Score of the item at zero-based position `pos`: 120 at the top, 5 less for
/// each following position, with a floor of 5.
pub open spec fn score_spec(pos: int) -> int {
    if 120 - 5 * pos < 5 {
        5
    } else {
        120 - 5 * pos
    }
}

/// Maps a zero-based result position to its display score.
pub fn calculate_score(index: usize) -> (score: i64)
    ensures
        score == score_spec(index as int),
{
    if index >= 23 {
        5
    } else {
        120 - 5 * (index as i64)
    }
}

/// Law: the score never increases along the result sequence, and never falls
/// below 5.
pub proof fn lemma_score_monotonic(p1: int, p2: int)
    requires
        0 <= p1 < p2,
    ensures
        score_spec(p2) <= score_spec(p1),
        score_spec(p1) >= 5,
        score_spec(p2) >= 5,
{
}

} // verus!
