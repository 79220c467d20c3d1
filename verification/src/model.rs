//! Candidate records: the profiles that are scored and ranked.

use vstd::prelude::*;
use crate::score::{Score, score_lt};

verus! {

/// A candidate profile: the same attribute shape as the matching person,
/// plus the match score the ranker writes exactly once.
pub struct CandidatePerson {
    pub qid: String,
    pub name: String,
    pub gender: String,
    pub age: i64,
    pub education: String,
    pub verbal: String,
    pub email: String,
    pub phone: String,
    pub match_score: Score,
}

impl CandidatePerson {
    /// Compare two candidates by match score alone: `Greater` when `self`
    /// scores strictly above `other`, `Less` when strictly below, `Equal`
    /// otherwise.
    pub fn cmp_score(&self, other: &Self) -> (r: core::cmp::Ordering)
        ensures
            (r == core::cmp::Ordering::Greater) == score_lt(other.match_score, self.match_score),
            (r == core::cmp::Ordering::Less) == score_lt(self.match_score, other.match_score),
            (r == core::cmp::Ordering::Equal) == (!score_lt(other.match_score, self.match_score)
                && !score_lt(self.match_score, other.match_score)),
    {
        if other.match_score.is_below(&self.match_score) {
            core::cmp::Ordering::Greater
        } else if self.match_score.is_below(&other.match_score) {
            core::cmp::Ordering::Less
        } else {
            core::cmp::Ordering::Equal
        }
    }
}

} // verus!
