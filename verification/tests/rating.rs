use puzzle_engine::rating::{default_puzzle_rating, rating_for_puzzles, SolverOutcome};

fn solver(name: &str, rating: i32, solved: bool) -> SolverOutcome {
    SolverOutcome { player_id: name.to_string(), rating, solved }
}

#[test]
fn default_rating_follows_the_formula() {
    // 1250 + 350 * floor(tokens / 2)
    assert_eq!(default_puzzle_rating(""), 1250);
    assert_eq!(default_puzzle_rating("a"), 1250);
    assert_eq!(default_puzzle_rating("a b"), 1600);
    assert_eq!(default_puzzle_rating("a b c"), 1600);
    assert_eq!(default_puzzle_rating("a b c d"), 1950);
    assert_eq!(default_puzzle_rating("5e3< d4- 3e3+12 *"), 1950);
}

#[test]
fn default_rating_never_decreases_with_solution_length() {
    let solutions = ["", "a", "a b", "a b c", "a b c d", "a b c d e f g h"];
    let mut last = 0;
    for s in solutions {
        let r = default_puzzle_rating(s);
        assert!(r >= last);
        last = r;
    }
}

#[test]
fn zero_attempts_yields_exactly_the_default_rating() {
    let sample: Vec<SolverOutcome> = Vec::new();
    assert_eq!(rating_for_puzzles("a b c d", &sample), 1950);
    assert_eq!(rating_for_puzzles("", &sample), 1250);
}

#[test]
fn a_failed_solver_raises_the_rating_and_a_successful_one_lowers_it() {
    let sample: Vec<SolverOutcome> = Vec::new();
    let baseline = rating_for_puzzles("a b c d", &sample);
    let beaten = rating_for_puzzles("a b c d", &vec![solver("alice", 1950, true)]);
    let resisted = rating_for_puzzles("a b c d", &vec![solver("alice", 1950, false)]);
    assert!(beaten < baseline);
    assert!(resisted > baseline);
}

#[test]
fn flipping_one_outcome_to_solved_never_raises_the_rating() {
    // holding the opponent pool fixed, failed -> solved can only lower it
    let pool = [("alice", 1600), ("bob", 1400), ("carol", 1500)];
    for flip in 0..pool.len() {
        let before: Vec<SolverOutcome> =
            pool.iter().map(|(name, rating)| solver(name, *rating, false)).collect();
        let after: Vec<SolverOutcome> = pool
            .iter()
            .enumerate()
            .map(|(k, (name, rating))| solver(name, *rating, k == flip))
            .collect();
        let r_before = rating_for_puzzles("a b c d", &before);
        let r_after = rating_for_puzzles("a b c d", &after);
        assert!(r_after <= r_before);
    }
}
