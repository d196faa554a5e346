//! Puzzle Selector.
//!
//! The next puzzle for a player is derived entirely from the ledger: first
//! the two designated onboarding puzzles, each until the player has a first
//! attempt on it, then a uniformly random never-attempted puzzle from the
//! catalog prefix below the configured cutoff. An exhausted pool is a normal
//! empty result, not an error.

use crate::rng::random_in_range;
use vstd::prelude::*;

verus! {

/// Configuration of the selector: the two onboarding puzzles, served first
/// and second to every new player, and the exclusive upper bound of the
/// random candidate pool.
pub struct SelectorConfig {
    pub first_onboarding: u64,
    pub second_onboarding: u64,
    pub pool_cutoff: u64,
}

impl Default for SelectorConfig {
    /// The deployed configuration: puzzles 3 and 15 for onboarding, random
    /// serving from the catalog prefix below id 20.
    fn default() -> (c: Self)
        ensures
            c.first_onboarding == 3,
            c.second_onboarding == 15,
            c.pool_cutoff == 20,
    {
        SelectorConfig { first_onboarding: 3, second_onboarding: 15, pool_cutoff: 20 }
    }
}

/// Puzzle `p` may be served at random: it is in the catalog, below the pool
/// cutoff, and the player has never attempted it.
pub open spec fn eligible(cfg: SelectorConfig, attempted: Seq<u64>, pool: Seq<u64>, p: u64) -> bool {
    pool.contains(p) && p < cfg.pool_cutoff && !attempted.contains(p)
}

/// Exactly the selections the policy allows: the first onboarding puzzle
/// while it is unattempted, then the second, then any eligible puzzle, and
/// an empty result exactly when no puzzle is eligible.
pub open spec fn selection_ok(
    cfg: SelectorConfig,
    attempted: Seq<u64>,
    pool: Seq<u64>,
    r: Option<u64>,
) -> bool {
    if !attempted.contains(cfg.first_onboarding) {
        r == Some(cfg.first_onboarding)
    } else if !attempted.contains(cfg.second_onboarding) {
        r == Some(cfg.second_onboarding)
    } else {
        match r {
            Some(p) => eligible(cfg, attempted, pool, p),
            None => forall|k: int|
                0 <= k < pool.len() ==> !eligible(cfg, attempted, pool, pool[k]),
        }
    }
}

fn contains_id(v: &Vec<u64>, x: u64) -> (b: bool)
    ensures
        b == v@.contains(x),
{
    let n = v.len();
    let mut i: usize = 0;
    while i < n
        invariant
            n == v@.len(),
            i <= n,
            forall|k: int| 0 <= k < i ==> v@[k] != x,
        decreases n - i,
    {
        if v[i] == x {
            return true;
        }
        i = i + 1;
    }
    false
}

/// Chooses the next puzzle to present to the player whose attempted puzzle
/// ids are `attempted`, from the catalog `pool`: the onboarding pair first,
/// then a uniformly random eligible puzzle, and `None` exactly when the
/// eligible pool is exhausted.
pub fn select_next_puzzle(cfg: &SelectorConfig, attempted: &Vec<u64>, pool: &Vec<u64>) -> (r:
    Option<u64>)
    ensures
        selection_ok(*cfg, attempted@, pool@, r),
{
    if !contains_id(attempted, cfg.first_onboarding) {
        return Some(cfg.first_onboarding);
    }
    if !contains_id(attempted, cfg.second_onboarding) {
        return Some(cfg.second_onboarding);
    }
    let n = pool.len();
    let mut candidates: Vec<u64> = Vec::new();
    let mut i: usize = 0;
    while i < n
        invariant
            n == pool@.len(),
            i <= n,
            forall|m: int|
                #![trigger candidates@[m]]
                0 <= m < candidates@.len() ==> eligible(*cfg, attempted@, pool@, candidates@[m]),
            candidates@.len() == 0 ==> forall|k: int|
                0 <= k < i ==> !eligible(*cfg, attempted@, pool@, pool@[k]),
        decreases n - i,
    {
        let p = pool[i];
        if p < cfg.pool_cutoff && !contains_id(attempted, p) {
            proof {
                assert(pool@[i as int] == p);
                assert(pool@.contains(p));
            }
            candidates.push(p);
        }
        i = i + 1;
    }
    if candidates.len() == 0 {
        None
    } else {
        let idx = random_in_range(0, candidates.len() as u64);
        Some(candidates[idx as usize])
    }
}

/// Re-querying with no intervening write is consistent: two selections from
/// the same ledger state succeed or fail together; while onboarding is
/// unfinished they are equal, and afterwards both draws come from the same
/// eligible candidate set.
pub proof fn lemma_selection_idempotent(
    cfg: SelectorConfig,
    attempted: Seq<u64>,
    pool: Seq<u64>,
    r1: Option<u64>,
    r2: Option<u64>,
)
    requires
        selection_ok(cfg, attempted, pool, r1),
        selection_ok(cfg, attempted, pool, r2),
    ensures
        r1 is Some <==> r2 is Some,
        !(attempted.contains(cfg.first_onboarding) && attempted.contains(cfg.second_onboarding))
            ==> r1 == r2,
        attempted.contains(cfg.first_onboarding) && attempted.contains(cfg.second_onboarding)
            ==> (match r1 {
            Some(p) => eligible(cfg, attempted, pool, p),
            None => true,
        }),
{
    if attempted.contains(cfg.first_onboarding) && attempted.contains(cfg.second_onboarding) {
        match r1 {
            Some(p) => {
                if r2 is None {
                    let k = choose|k: int| 0 <= k < pool.len() && pool[k] == p;
                    assert(!eligible(cfg, attempted, pool, pool[k]));
                }
            },
            None => {
                match r2 {
                    Some(q) => {
                        let k = choose|k: int| 0 <= k < pool.len() && pool[k] == q;
                        assert(!eligible(cfg, attempted, pool, pool[k]));
                    },
                    None => {},
                }
            },
        }
    }
}

} // verus!
