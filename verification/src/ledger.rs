//! Attempt Ledger Reader.
//!
//! The attempt log is append-only: a player may attempt a puzzle many times,
//! but only the earliest attempt per (player, puzzle) pair is authoritative
//! for progress tracking and rating. The readers here deduplicate a raw
//! attempt log accordingly: once per puzzle for one player's progress, and
//! once per player for one puzzle's rating sample, the latter excluding a
//! configured denylist of administrative identities and joining each solver
//! against the externally maintained player-rating table.

use crate::rating::SolverOutcome;
use vstd::prelude::*;

verus! {

/// One recorded attempt by a player on a puzzle.
pub struct Attempt {
    pub puzzle_id: u64,
    pub player_id: String,
    pub solved: bool,
    pub solve_time_seconds: u32,
    pub timestamp_seconds: u64,
}

/// A player's externally maintained skill rating.
pub struct PlayerRating {
    pub player_id: String,
    pub rating: i32,
}

/// `s[j]` is the authoritative first attempt on its puzzle within `s`: no
/// attempt on the same puzzle has a smaller timestamp, and among equal
/// timestamps it is the earliest record.
pub open spec fn is_first_attempt(s: Seq<Attempt>, j: int) -> bool {
    &&& 0 <= j < s.len()
    &&& forall|k: int|
        0 <= k < s.len() && s[k].puzzle_id == s[j].puzzle_id ==> s[j].timestamp_seconds
            <= s[k].timestamp_seconds
    &&& forall|k: int|
        0 <= k < j && s[k].puzzle_id == s[j].puzzle_id ==> s[j].timestamp_seconds
            < s[k].timestamp_seconds
}

/// Each attempted puzzle has at most one first attempt.
pub proof fn lemma_first_attempt_unique(s: Seq<Attempt>, i: int, j: int)
    requires
        is_first_attempt(s, i),
        is_first_attempt(s, j),
        s[i].puzzle_id == s[j].puzzle_id,
    ensures
        i == j,
{
    if i < j {
        assert(s[j].timestamp_seconds < s[i].timestamp_seconds);
        assert(s[i].timestamp_seconds <= s[j].timestamp_seconds);
    } else if j < i {
        assert(s[i].timestamp_seconds < s[j].timestamp_seconds);
        assert(s[j].timestamp_seconds <= s[i].timestamp_seconds);
    }
}

/// Each attempted puzzle has at least one first attempt.
pub proof fn lemma_first_attempt_exists(s: Seq<Attempt>, j: int)
    requires
        0 <= j < s.len(),
    ensures
        exists|jf: int| is_first_attempt(s, jf) && s[jf].puzzle_id == s[j].puzzle_id,
    decreases s[j].timestamp_seconds, j,
{
    if is_first_attempt(s, j) {
        assert(is_first_attempt(s, j) && s[j].puzzle_id == s[j].puzzle_id);
    } else if !(forall|k: int|
        0 <= k < s.len() && s[k].puzzle_id == s[j].puzzle_id ==> s[j].timestamp_seconds
            <= s[k].timestamp_seconds) {
        let k = choose|k: int|
            !(0 <= k < s.len() && s[k].puzzle_id == s[j].puzzle_id ==> s[j].timestamp_seconds
                <= s[k].timestamp_seconds);
        lemma_first_attempt_exists(s, k);
    } else {
        let k = choose|k: int|
            !(0 <= k < j && s[k].puzzle_id == s[j].puzzle_id ==> s[j].timestamp_seconds
                < s[k].timestamp_seconds);
        lemma_first_attempt_exists(s, k);
    }
}

/// Both dedup conditions of `is_first_attempt(s, i)`, restricted to one
/// competing record `k`.
spec fn first_attempt_cond(s: Seq<Attempt>, i: int, k: int) -> bool {
    &&& s[k].puzzle_id == s[i].puzzle_id ==> s[i].timestamp_seconds <= s[k].timestamp_seconds
    &&& k < i && s[k].puzzle_id == s[i].puzzle_id ==> s[i].timestamp_seconds
        < s[k].timestamp_seconds
}

fn clone_attempt(a: &Attempt) -> (r: Attempt)
    ensures
        r == *a,
{
    Attempt {
        puzzle_id: a.puzzle_id,
        player_id: a.player_id.clone(),
        solved: a.solved,
        solve_time_seconds: a.solve_time_seconds,
        timestamp_seconds: a.timestamp_seconds,
    }
}

/// Whether `attempts[i]` is the first attempt on its puzzle.
fn is_first_attempt_at(attempts: &Vec<Attempt>, i: usize) -> (b: bool)
    requires
        i < attempts@.len(),
    ensures
        b == is_first_attempt(attempts@, i as int),
{
    let n = attempts.len();
    let ts_i = attempts[i].timestamp_seconds;
    let pid = attempts[i].puzzle_id;
    let mut k: usize = 0;
    let mut ok = true;
    while k < n
        invariant
            n == attempts@.len(),
            i < n,
            k <= n,
            ts_i == attempts@[i as int].timestamp_seconds,
            pid == attempts@[i as int].puzzle_id,
            ok == (forall|k2: int| 0 <= k2 < k ==> first_attempt_cond(attempts@, i as int, k2)),
        decreases n - k,
    {
        let bad = attempts[k].puzzle_id == pid && (attempts[k].timestamp_seconds < ts_i || (k < i
            && attempts[k].timestamp_seconds == ts_i));
        proof {
            assert(first_attempt_cond(attempts@, i as int, k as int) == !bad);
        }
        if bad {
            ok = false;
        }
        k = k + 1;
    }
    proof {
        if ok {
            assert forall|k2: int|
                0 <= k2 < attempts@.len() && attempts@[k2].puzzle_id == attempts@[i as int].puzzle_id implies attempts@[i as int].timestamp_seconds <= attempts@[k2].timestamp_seconds by {
                assert(first_attempt_cond(attempts@, i as int, k2));
            }
            assert forall|k2: int|
                0 <= k2 < i && attempts@[k2].puzzle_id == attempts@[i as int].puzzle_id implies
                attempts@[i as int].timestamp_seconds < attempts@[k2].timestamp_seconds by {
                assert(first_attempt_cond(attempts@, i as int, k2));
            }
        } else {
            let k2 = choose|k2: int| !(0 <= k2 < n ==> first_attempt_cond(attempts@, i as int, k2));
            assert(!is_first_attempt(attempts@, i as int));
        }
    }
    ok
}

/// `a` occurs in `s` as the first attempt on its puzzle.
pub open spec fn appears_as_first_attempt(s: Seq<Attempt>, a: Attempt) -> bool {
    exists|j: int|
        #![trigger is_first_attempt(s, j)]
        0 <= j < s.len() && is_first_attempt(s, j) && a == s[j]
}

/// Some record of `r` is on puzzle `pid`.
pub open spec fn puzzle_covered(r: Seq<Attempt>, pid: u64) -> bool {
    exists|m: int|
        #![trigger r[m]]
        0 <= m < r.len() && r[m].puzzle_id == pid
}

/// For each distinct puzzle the player has any attempt on, exactly the
/// minimum-timestamp attempt (earliest record among equal timestamps) is
/// returned; re-attempts are dropped. No ordering across puzzles is promised.
pub fn first_attempts_by_player(attempts: &Vec<Attempt>) -> (r: Vec<Attempt>)
    ensures
        forall|m: int|
            #![trigger r@[m]]
            0 <= m < r@.len() ==> appears_as_first_attempt(attempts@, r@[m]),
        forall|m1: int, m2: int|
            0 <= m1 < m2 < r@.len() ==> r@[m1].puzzle_id != r@[m2].puzzle_id,
        forall|j: int|
            #![trigger attempts@[j]]
            0 <= j < attempts@.len() ==> puzzle_covered(r@, attempts@[j].puzzle_id),
{
    let n = attempts.len();
    let mut r: Vec<Attempt> = Vec::new();
    let ghost mut w: Seq<int> = Seq::empty();
    let ghost mut cov: Map<int, int> = Map::empty();
    let mut i: usize = 0;
    while i < n
        invariant
            n == attempts@.len(),
            i <= n,
            w.len() == r@.len(),
            forall|m: int|
                #![trigger w[m]]
                #![trigger r@[m]]
                0 <= m < r@.len() ==> 0 <= w[m] < i && is_first_attempt(attempts@, w[m]) && r@[m]
                    == attempts@[w[m]],
            forall|m1: int, m2: int|
                0 <= m1 < m2 < r@.len() ==> r@[m1].puzzle_id != r@[m2].puzzle_id,
            forall|j: int|
                #![trigger cov[j]]
                #![trigger is_first_attempt(attempts@, j)]
                0 <= j < i && is_first_attempt(attempts@, j) ==> cov.contains_key(j) && 0 <= cov[j]
                    < r@.len() && r@[cov[j]] == attempts@[j],
        decreases n - i,
    {
        let ghost s = attempts@;
        let ghost ii = i as int;
        let ghost old_r = r@;
        if is_first_attempt_at(attempts, i) {
            proof {
                assert forall|m: int| 0 <= m < old_r.len() implies old_r[m].puzzle_id != s[ii].puzzle_id by {
                    if old_r[m].puzzle_id == s[ii].puzzle_id {
                        lemma_first_attempt_unique(s, w[m], ii);
                    }
                }
            }
            let a = clone_attempt(&attempts[i]);
            r.push(a);
            proof {
                w = w.push(ii);
                cov = cov.insert(ii, old_r.len() as int);
                assert(r@[old_r.len() as int] == s[ii]);
            }
        }
        i = i + 1;
    }
    proof {
        assert forall|m: int| #![trigger r@[m]] 0 <= m < r@.len() implies appears_as_first_attempt(
            attempts@,
            r@[m],
        ) by {
            assert(0 <= w[m] < attempts@.len() && is_first_attempt(attempts@, w[m]) && r@[m]
                == attempts@[w[m]]);
        }
        assert forall|j: int| #![trigger attempts@[j]] 0 <= j < attempts@.len() implies
            puzzle_covered(r@, attempts@[j].puzzle_id) by {
            lemma_first_attempt_exists(attempts@, j);
            let jf = choose|jf: int|
                is_first_attempt(attempts@, jf) && attempts@[jf].puzzle_id == attempts@[j].puzzle_id;
            assert(cov.contains_key(jf) && 0 <= cov[jf] < r@.len() && r@[cov[jf]] == attempts@[jf]);
        }
    }
    r
}

/// The player identity is on the configured denylist.
pub open spec fn denylisted(deny: Seq<String>, pid: Seq<char>) -> bool {
    exists|d: int| 0 <= d < deny.len() && deny[d]@ == pid
}

fn in_denylist(deny: &Vec<String>, pid: &String) -> (b: bool)
    ensures
        b == denylisted(deny@, pid@),
{
    let n = deny.len();
    let mut d: usize = 0;
    while d < n
        invariant
            n == deny@.len(),
            d <= n,
            forall|d2: int| 0 <= d2 < d ==> deny@[d2]@ != pid@,
        decreases n - d,
    {
        if deny[d].eq(pid) {
            return true;
        }
        d = d + 1;
    }
    false
}

/// The attempt belongs to this puzzle and its player is not denylisted.
pub open spec fn relevant(a: Attempt, puzzle_id: u64, deny: Seq<String>) -> bool {
    a.puzzle_id == puzzle_id && !denylisted(deny, a.player_id@)
}

/// The subsequence of `s` on this puzzle by non-denylisted players, in order.
pub open spec fn relevant_attempts_spec(s: Seq<Attempt>, puzzle_id: u64, deny: Seq<String>) -> Seq<
    Attempt,
>
    decreases s.len(),
{
    if s.len() == 0 {
        Seq::empty()
    } else {
        let rest = relevant_attempts_spec(s.drop_last(), puzzle_id, deny);
        if relevant(s.last(), puzzle_id, deny) {
            rest.push(s.last())
        } else {
            rest
        }
    }
}

/// Every record the filter keeps is on this puzzle and not denylisted.
pub proof fn lemma_relevant_members(s: Seq<Attempt>, puzzle_id: u64, deny: Seq<String>)
    ensures
        forall|m: int|
            0 <= m < relevant_attempts_spec(s, puzzle_id, deny).len() ==> relevant(
                relevant_attempts_spec(s, puzzle_id, deny)[m],
                puzzle_id,
                deny,
            ),
    decreases s.len(),
{
    if s.len() > 0 {
        lemma_relevant_members(s.drop_last(), puzzle_id, deny);
        let rel = relevant_attempts_spec(s, puzzle_id, deny);
        let rest = relevant_attempts_spec(s.drop_last(), puzzle_id, deny);
        assert forall|m: int| 0 <= m < rel.len() implies relevant(rel[m], puzzle_id, deny) by {
            if m < rest.len() {
                assert(relevant(rest[m], puzzle_id, deny));
            } else {
                assert(rel[m] == s.last());
            }
        }
    }
}

fn relevant_attempts(attempts: &Vec<Attempt>, puzzle_id: u64, denylist: &Vec<String>) -> (f: Vec<
    Attempt,
>)
    ensures
        f@ == relevant_attempts_spec(attempts@, puzzle_id, denylist@),
{
    let n = attempts.len();
    let mut f: Vec<Attempt> = Vec::new();
    let mut i: usize = 0;
    while i < n
        invariant
            n == attempts@.len(),
            i <= n,
            f@ == relevant_attempts_spec(attempts@.take(i as int), puzzle_id, denylist@),
        decreases n - i,
    {
        proof {
            assert(attempts@.take(i + 1).drop_last() =~= attempts@.take(i as int));
            assert(attempts@.take(i + 1).last() == attempts@[i as int]);
        }
        if attempts[i].puzzle_id == puzzle_id && !in_denylist(denylist, &attempts[i].player_id) {
            let a = clone_attempt(&attempts[i]);
            f.push(a);
        }
        i = i + 1;
    }
    proof {
        assert(attempts@.take(n as int) =~= attempts@);
    }
    f
}

/// `s[j]` is one player's earliest record within `s` (all of one puzzle):
/// no record by the same player has a smaller timestamp, and among equal
/// timestamps it is the earliest.
pub open spec fn is_first_by_player(s: Seq<Attempt>, j: int) -> bool {
    &&& 0 <= j < s.len()
    &&& forall|k: int|
        0 <= k < s.len() && s[k].player_id@ == s[j].player_id@ ==> s[j].timestamp_seconds
            <= s[k].timestamp_seconds
    &&& forall|k: int|
        0 <= k < j && s[k].player_id@ == s[j].player_id@ ==> s[j].timestamp_seconds
            < s[k].timestamp_seconds
}

/// Each player has at most one first record.
pub proof fn lemma_first_by_player_unique(s: Seq<Attempt>, i: int, j: int)
    requires
        is_first_by_player(s, i),
        is_first_by_player(s, j),
        s[i].player_id@ == s[j].player_id@,
    ensures
        i == j,
{
    if i < j {
        assert(s[j].timestamp_seconds < s[i].timestamp_seconds);
        assert(s[i].timestamp_seconds <= s[j].timestamp_seconds);
    } else if j < i {
        assert(s[i].timestamp_seconds < s[j].timestamp_seconds);
        assert(s[j].timestamp_seconds <= s[i].timestamp_seconds);
    }
}

/// Both dedup conditions of `is_first_by_player(s, i)`, restricted to one
/// competing record `k`.
spec fn first_by_player_cond(s: Seq<Attempt>, i: int, k: int) -> bool {
    &&& s[k].player_id@ == s[i].player_id@ ==> s[i].timestamp_seconds <= s[k].timestamp_seconds
    &&& k < i && s[k].player_id@ == s[i].player_id@ ==> s[i].timestamp_seconds
        < s[k].timestamp_seconds
}

/// Whether `f[i]` is its player's earliest record in `f`.
fn is_first_by_player_at(f: &Vec<Attempt>, i: usize) -> (b: bool)
    requires
        i < f@.len(),
    ensures
        b == is_first_by_player(f@, i as int),
{
    let n = f.len();
    let ts_i = f[i].timestamp_seconds;
    let mut k: usize = 0;
    let mut ok = true;
    while k < n
        invariant
            n == f@.len(),
            i < n,
            k <= n,
            ts_i == f@[i as int].timestamp_seconds,
            ok == (forall|k2: int| 0 <= k2 < k ==> first_by_player_cond(f@, i as int, k2)),
        decreases n - k,
    {
        let same = f[k].player_id.eq(&f[i].player_id);
        let bad = same && (f[k].timestamp_seconds < ts_i || (k < i && f[k].timestamp_seconds
            == ts_i));
        proof {
            assert(first_by_player_cond(f@, i as int, k as int) == !bad);
        }
        if bad {
            ok = false;
        }
        k = k + 1;
    }
    proof {
        if ok {
            assert forall|k2: int|
                0 <= k2 < f@.len() && f@[k2].player_id@ == f@[i as int].player_id@ implies f@[i as int].timestamp_seconds <= f@[k2].timestamp_seconds by {
                assert(first_by_player_cond(f@, i as int, k2));
            }
            assert forall|k2: int|
                0 <= k2 < i && f@[k2].player_id@ == f@[i as int].player_id@ implies f@[i as int].timestamp_seconds < f@[k2].timestamp_seconds by {
                assert(first_by_player_cond(f@, i as int, k2));
            }
        } else {
            let k2 = choose|k2: int| !(0 <= k2 < n ==> first_by_player_cond(f@, i as int, k2));
            assert(!is_first_by_player(f@, i as int));
        }
    }
    ok
}

/// The rating of the first entry for this player in the rating table.
pub open spec fn lookup_rating(ratings: Seq<PlayerRating>, pid: Seq<char>) -> Option<i32>
    decreases ratings.len(),
{
    if ratings.len() == 0 {
        None
    } else if ratings[0].player_id@ == pid {
        Some(ratings[0].rating)
    } else {
        lookup_rating(ratings.drop_first(), pid)
    }
}

fn find_rating(ratings: &Vec<PlayerRating>, pid: &String) -> (o: Option<i32>)
    ensures
        o == lookup_rating(ratings@, pid@),
{
    let n = ratings.len();
    let mut k: usize = 0;
    proof {
        assert(ratings@.skip(0) =~= ratings@);
    }
    while k < n
        invariant
            n == ratings@.len(),
            k <= n,
            lookup_rating(ratings@, pid@) == lookup_rating(ratings@.skip(k as int), pid@),
        decreases n - k,
    {
        proof {
            assert(ratings@.skip(k as int)[0] == ratings@[k as int]);
            assert(ratings@.skip(k as int).drop_first() =~= ratings@.skip(k + 1));
        }
        if ratings[k].player_id.eq(pid) {
            return Some(ratings[k].rating);
        }
        k = k + 1;
    }
    proof {
        assert(ratings@.skip(n as int) =~= Seq::<PlayerRating>::empty());
    }
    None
}

/// `o` is a faithful sample entry for this puzzle: it is some rated,
/// non-denylisted player's earliest attempt, carrying that player's rating.
pub open spec fn solver_outcome_ok(
    rel: Seq<Attempt>,
    ratings: Seq<PlayerRating>,
    o: SolverOutcome,
) -> bool {
    &&& exists|j: int|
        #![trigger is_first_by_player(rel, j)]
        0 <= j < rel.len() && is_first_by_player(rel, j) && o.player_id@ == rel[j].player_id@
            && o.solved == rel[j].solved
    &&& lookup_rating(ratings, o.player_id@) == Some(o.rating)
}

/// The rating sample for one puzzle: each non-denylisted player's earliest
/// attempt on it, joined with that player's externally maintained rating.
/// Players absent from the rating table contribute no sample entry; a
/// denylisted player's attempts never appear, even if they are the only
/// attempts recorded.
pub fn first_attempts_for_puzzle(
    attempts: &Vec<Attempt>,
    puzzle_id: u64,
    denylist: &Vec<String>,
    ratings: &Vec<PlayerRating>,
) -> (r: Vec<SolverOutcome>)
    ensures
        forall|m: int|
            #![trigger r@[m]]
            0 <= m < r@.len() ==> solver_outcome_ok(
                relevant_attempts_spec(attempts@, puzzle_id, denylist@),
                ratings@,
                r@[m],
            ),
        forall|m1: int, m2: int|
            0 <= m1 < m2 < r@.len() ==> r@[m1].player_id@ != r@[m2].player_id@,
        forall|j: int|
            #![trigger is_first_by_player(relevant_attempts_spec(attempts@, puzzle_id, denylist@), j)]
            ({
                let rel = relevant_attempts_spec(attempts@, puzzle_id, denylist@);
                0 <= j < rel.len() && is_first_by_player(rel, j) && lookup_rating(
                    ratings@,
                    rel[j].player_id@,
                ) is Some ==> exists|m: int|
                    #![trigger r@[m]]
                    0 <= m < r@.len() && r@[m].player_id@ == rel[j].player_id@
            }),
        forall|m: int|
            #![trigger r@[m]]
            0 <= m < r@.len() ==> !denylisted(denylist@, r@[m].player_id@),
{
    let f = relevant_attempts(attempts, puzzle_id, denylist);
    let n = f.len();
    let mut r: Vec<SolverOutcome> = Vec::new();
    let ghost mut w: Seq<int> = Seq::empty();
    let ghost mut cov: Map<int, int> = Map::empty();
    let mut i: usize = 0;
    while i < n
        invariant
            n == f@.len(),
            i <= n,
            w.len() == r@.len(),
            forall|m: int|
                #![trigger w[m]]
                #![trigger r@[m]]
                0 <= m < r@.len() ==> 0 <= w[m] < i && is_first_by_player(f@, w[m])
                    && r@[m].player_id@ == f@[w[m]].player_id@ && r@[m].solved == f@[w[m]].solved
                    && lookup_rating(ratings@, r@[m].player_id@) == Some(r@[m].rating),
            forall|m1: int, m2: int|
                0 <= m1 < m2 < r@.len() ==> r@[m1].player_id@ != r@[m2].player_id@,
            forall|j: int|
                #![trigger cov[j]]
                #![trigger is_first_by_player(f@, j)]
                0 <= j < i && is_first_by_player(f@, j) && lookup_rating(
                    ratings@,
                    f@[j].player_id@,
                ) is Some ==> cov.contains_key(j) && 0 <= cov[j] < r@.len()
                    && r@[cov[j]].player_id@ == f@[j].player_id@,
        decreases n - i,
    {
        let ghost fs = f@;
        let ghost ii = i as int;
        let ghost old_r = r@;
        if is_first_by_player_at(&f, i) {
            match find_rating(ratings, &f[i].player_id) {
                Some(rt) => {
                    proof {
                        assert forall|m: int| 0 <= m < old_r.len() implies old_r[m].player_id@
                            != fs[ii].player_id@ by {
                            if old_r[m].player_id@ == fs[ii].player_id@ {
                                lemma_first_by_player_unique(fs, w[m], ii);
                            }
                        }
                    }
                    let o = SolverOutcome {
                        player_id: f[i].player_id.clone(),
                        rating: rt,
                        solved: f[i].solved,
                    };
                    r.push(o);
                    proof {
                        w = w.push(ii);
                        cov = cov.insert(ii, old_r.len() as int);
                        assert(r@[old_r.len() as int].player_id@ == fs[ii].player_id@);
                    }
                },
                None => {},
            }
        }
        i = i + 1;
    }
    proof {
        let rel = relevant_attempts_spec(attempts@, puzzle_id, denylist@);
        lemma_relevant_members(attempts@, puzzle_id, denylist@);
        assert forall|m: int| #![trigger r@[m]] 0 <= m < r@.len() implies solver_outcome_ok(
            rel,
            ratings@,
            r@[m],
        ) by {
            assert(0 <= w[m] < rel.len() && is_first_by_player(rel, w[m]) && r@[m].player_id@
                == rel[w[m]].player_id@ && r@[m].solved == rel[w[m]].solved);
        }
        assert forall|j: int|
            #![trigger is_first_by_player(rel, j)]
            0 <= j < rel.len() && is_first_by_player(rel, j) && lookup_rating(
                ratings@,
                rel[j].player_id@,
            ) is Some implies exists|m: int|
            #![trigger r@[m]]
            0 <= m < r@.len() && r@[m].player_id@ == rel[j].player_id@ by {
            assert(cov.contains_key(j) && 0 <= cov[j] < r@.len() && r@[cov[j]].player_id@
                == rel[j].player_id@);
        }
        assert forall|m: int| #![trigger r@[m]] 0 <= m < r@.len() implies !denylisted(
            denylist@,
            r@[m].player_id@,
        ) by {
            assert(relevant(rel[w[m]], puzzle_id, denylist@));
        }
    }
    r
}

} // verus!
