//! Puzzles as served to players, and the Target-Time Estimator.
//!
//! A stored puzzle row holds its solution as one whitespace-separated
//! string; serving it splits the solution into move tokens and computes a
//! suggested solve-time budget from the board's piece count and the
//! solution's length, with bounded upward jitter.

use crate::rng::random_in_range;
use crate::tokens::{lemma_tokens_of_len, split_tokens, tokens_of};
use vstd::prelude::*;

verus! {

/// A puzzle as stored: position, metadata and the solution as one string.
pub struct PuzzleRow {
    pub id: u64,
    pub root_tps: String,
    pub defender_start_move: String,
    pub size: usize,
    pub komi: String,
    pub player_white: String,
    pub player_black: String,
    pub solution: String,
    pub initial_rating: Option<i32>,
    pub rating: Option<i32>,
    pub target_time_seconds: u32,
    pub playtak_game_id: usize,
}

/// A puzzle as served: the solution split into move tokens and the target
/// time freshly estimated.
pub struct Puzzle {
    pub id: u64,
    pub size: usize,
    pub komi: String,
    pub root_tps: String,
    pub defender_start_move: String,
    pub solution: Vec<String>,
    pub target_time_seconds: u32,
    pub player_white: String,
    pub player_black: String,
    pub playtak_game_id: usize,
}

/// How many piece markers (the two canonical side markers `'1'` and `'2'`)
/// the position encoding holds.
pub open spec fn marker_count(s: Seq<char>) -> nat
    decreases s.len(),
{
    if s.len() == 0 {
        0
    } else {
        marker_count(s.drop_last()) + if s.last() == '1' || s.last() == '2' {
            1nat
        } else {
            0nat
        }
    }
}

/// Full move-pairs in the solution: its token count, rounded up to pairs.
pub open spec fn ply_pairs(solution: Seq<char>) -> nat {
    (tokens_of(solution).len() + 1) / 2
}

/// The low end of the target-time window, in seconds.
pub open spec fn base_target_time(root: Seq<char>, solution: Seq<char>) -> nat {
    (20 + marker_count(root) / 2) * ply_pairs(solution)
}

/// There are never more markers than characters.
proof fn lemma_marker_count_le(s: Seq<char>)
    ensures
        marker_count(s) <= s.len(),
    decreases s.len(),
{
    if s.len() > 0 {
        lemma_marker_count_le(s.drop_last());
    }
}

fn count_markers(s: &str) -> (c: usize)
    ensures
        c == marker_count(s@),
{
    let n = s.unicode_len();
    let mut c: usize = 0;
    let mut i: usize = 0;
    while i < n
        invariant
            n == s@.len(),
            i <= n,
            c <= i,
            c == marker_count(s@.take(i as int)),
        decreases n - i,
    {
        proof {
            assert(s@.take(i + 1).drop_last() =~= s@.take(i as int));
            assert(s@.take(i + 1).last() == s@[i as int]);
        }
        let ch = s.get_char(i);
        if ch == '1' || ch == '2' {
            c = c + 1;
        }
        i = i + 1;
    }
    proof {
        assert(s@.take(n as int) =~= s@);
    }
    c
}

/// Suggested solve-time budget for a puzzle: with `low` the base target
/// time computed from the position's piece count and the solution's
/// move-pairs, the result always lies in `[low, 1.2 * low)`. The draw is
/// fresh on every call.
pub fn estimate_target_time(root_tps: &str, solution: &str) -> (t: u32)
    requires
        root_tps@.len() <= 40000,
        solution@.len() <= 40000,
        tokens_of(solution@).len() > 0,
    ensures
        base_target_time(root_tps@, solution@) <= t,
        5 * t < 6 * base_target_time(root_tps@, solution@),
{
    let markers = count_markers(root_tps);
    let toks = split_tokens(solution);
    proof {
        lemma_tokens_of_len(solution@);
        lemma_marker_count_le(root_tps@);
        assert(toks@.map_values(|x: String| x@).len() == toks@.len());
    }
    let count = toks.len();
    let pieces = (markers / 2) as u64;
    let pairs = ((count as u64) + 1) / 2;
    proof {
        assert(pieces <= 20000);
        assert(1 <= pairs <= 20001);
        assert((20 + pieces) * pairs <= 20020 * 20001) by (nonlinear_arith)
            requires
                pieces <= 20000,
                1 <= pairs <= 20001,
        ;
        assert((20 + pieces) * pairs >= 20) by (nonlinear_arith)
            requires
                1 <= pairs,
        ;
    }
    let low: u64 = (20 + pieces) * pairs;
    let high: u64 = (6 * low + 4) / 5;
    proof {
        assert(low < high && 5 * high <= 6 * low + 4) by (nonlinear_arith)
            requires
                20 <= low <= 20020 * 20001,
                high == (6 * low + 4) / 5,
        ;
        assert(low == base_target_time(root_tps@, solution@));
    }
    let t64 = random_in_range(low, high);
    t64 as u32
}

/// Serves a stored puzzle row: fields pass through, the solution is split
/// into its move tokens, and the target time is freshly estimated within
/// the formula's window.
pub fn puzzle_from_row(row: &PuzzleRow) -> (p: Puzzle)
    requires
        row.root_tps@.len() <= 40000,
        row.solution@.len() <= 40000,
        tokens_of(row.solution@).len() > 0,
    ensures
        p.id == row.id,
        p.size == row.size,
        p.komi@ == row.komi@,
        p.root_tps@ == row.root_tps@,
        p.defender_start_move@ == row.defender_start_move@,
        p.solution@.map_values(|t: String| t@) == tokens_of(row.solution@),
        p.player_white@ == row.player_white@,
        p.player_black@ == row.player_black@,
        p.playtak_game_id == row.playtak_game_id,
        base_target_time(row.root_tps@, row.solution@) <= p.target_time_seconds,
        5 * p.target_time_seconds < 6 * base_target_time(row.root_tps@, row.solution@),
{
    let target = estimate_target_time(row.root_tps.as_str(), row.solution.as_str());
    let toks = split_tokens(row.solution.as_str());
    Puzzle {
        id: row.id,
        size: row.size,
        komi: row.komi.clone(),
        root_tps: row.root_tps.clone(),
        defender_start_move: row.defender_start_move.clone(),
        solution: toks,
        target_time_seconds: target,
        player_white: row.player_white.clone(),
        player_black: row.player_black.clone(),
        playtak_game_id: row.playtak_game_id,
    }
}

} // verus!
