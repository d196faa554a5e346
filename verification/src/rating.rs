//! Difficulty Rating Engine.
//!
//! A puzzle is treated as a virtual competitor in a skill-rating system.
//! Its default rating is seeded from the length of its solution; one
//! rating-period update against the deduplicated sample of solver outcomes
//! then yields the puzzle's current difficulty, on the same scale as player
//! skill. A solver who beat the puzzle counts as a loss for the puzzle, a
//! solver who failed as a win.

use crate::tokens::{lemma_tokens_of_len, split_tokens, tokens_of};
use skillratings::glicko2::{glicko2_rating_period, Glicko2Config, Glicko2Rating};
use skillratings::Outcomes;
use vstd::prelude::*;

verus! {

/// One deduplicated solver outcome for a puzzle: the solver's identity and
/// current skill rating, and whether the solver beat the puzzle.
pub struct SolverOutcome {
    pub player_id: String,
    pub rating: i32,
    pub solved: bool,
}

/// Difficulty seed for a puzzle whose solution holds `tokens` move tokens:
/// longer forced sequences start harder.
pub open spec fn default_rating_spec(tokens: nat) -> nat {
    1250 + 350 * (tokens / 2)
}

/// The rating that one full period of the two-parameter skill-rating update
/// gives a competitor seeded at `seed` against `outcomes`, each outcome an
/// opponent's rating and whether the competitor won; truncated to an integer.
pub uninterp spec fn glicko2_period_rating(seed: int, outcomes: Seq<(int, bool)>) -> int;

/// Relies on skillratings::glicko2::glicko2_rating_period: one rating-period
/// update of the seeded competitor against the whole batch of opponents at
/// once. Its result depends on the arguments alone; with an empty batch it
/// returns the seed rating unchanged (only the deviation decays). Opponents
/// enter at their rating with the default deviation and volatility, as the
/// competitor does.
#[verifier::external_body]
fn glicko2_update(seed: u32, outcomes: &Vec<(i32, bool)>) -> (r: i64)
    ensures
        r == glicko2_period_rating(
            seed as int,
            outcomes@.map_values(|o: (i32, bool)| (o.0 as int, o.1)),
        ),
        outcomes@.len() == 0 ==> r == seed as i64,
{
    let competitor = Glicko2Rating { rating: seed.into(), ..Default::default() };
    let results: Vec<(Glicko2Rating, Outcomes)> = outcomes
        .iter()
        .map(|&(rating, won)| {
            let opponent = Glicko2Rating { rating: rating.into(), ..Default::default() };
            (opponent, if won { Outcomes::WIN } else { Outcomes::LOSS })
        })
        .collect();
    glicko2_rating_period(&competitor, &results, &Glicko2Config::new()).rating as i64
}

/// The default (zero-attempt) rating of a puzzle with the given solution.
pub fn default_puzzle_rating(solution: &str) -> (r: u32)
    requires
        solution@.len() <= 1_000_000,
    ensures
        r == default_rating_spec(tokens_of(solution@).len()),
{
    let toks = split_tokens(solution);
    proof {
        lemma_tokens_of_len(solution@);
        assert(toks@.map_values(|t: String| t@).len() == toks@.len());
    }
    let count = toks.len();
    1250 + 350 * ((count as u32) / 2)
}

/// The view of a sample as the outcome batch the puzzle plays: each solver's
/// rating, and whether the puzzle won (the solver failed).
pub open spec fn inverted_outcomes(sample: Seq<SolverOutcome>) -> Seq<(int, bool)> {
    sample.map_values(|o: SolverOutcome| (o.rating as int, !o.solved))
}

/// Recomputes a puzzle's difficulty rating from its solution and the
/// deduplicated sample of solver outcomes: one rating period at the default
/// rating, against every solver at once, with each solver's result inverted.
/// With no recorded solvers the default rating comes back exactly.
pub fn rating_for_puzzles(solution: &str, sample: &Vec<SolverOutcome>) -> (r: i64)
    requires
        solution@.len() <= 1_000_000,
    ensures
        r == glicko2_period_rating(
            default_rating_spec(tokens_of(solution@).len()) as int,
            inverted_outcomes(sample@),
        ),
        sample@.len() == 0 ==> r == default_rating_spec(tokens_of(solution@).len()),
{
    let seed = default_puzzle_rating(solution);
    let mut outcomes: Vec<(i32, bool)> = Vec::new();
    let mut k: usize = 0;
    while k < sample.len()
        invariant
            k <= sample@.len(),
            outcomes@ == sample@.take(k as int).map_values(|o: SolverOutcome| (o.rating, !o.solved)),
        decreases sample@.len() - k,
    {
        let ghost prev = outcomes@;
        outcomes.push((sample[k].rating, !sample[k].solved));
        proof {
            assert(sample@.take(k + 1) =~= sample@.take(k as int).push(sample@[k as int]));
            assert(sample@.take(k + 1).map_values(|o: SolverOutcome| (o.rating, !o.solved)) =~= prev
                .push((sample@[k as int].rating, !sample@[k as int].solved)));
        }
        k = k + 1;
    }
    proof {
        assert(sample@.take(sample@.len() as int) =~= sample@);
        assert(outcomes@.map_values(|o: (i32, bool)| (o.0 as int, o.1)) =~= inverted_outcomes(
            sample@,
        ));
    }
    glicko2_update(seed, &outcomes)
}

/// A longer solution never seeds a lower default rating: the default rating
/// is monotonically non-decreasing in the solution's token count.
pub proof fn lemma_default_rating_monotone(n1: nat, n2: nat)
    requires
        n1 <= n2,
    ensures
        default_rating_spec(n1) <= default_rating_spec(n2),
{
    assert(n1 / 2 <= n2 / 2) by (nonlinear_arith)
        requires
            n1 <= n2,
    ;
    assert(350 * (n1 / 2) <= 350 * (n2 / 2)) by (nonlinear_arith)
        requires
            n1 / 2 <= n2 / 2,
    ;
}

} // verus!
