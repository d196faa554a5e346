use puzzle_engine::selector::{select_next_puzzle, SelectorConfig};

fn pool() -> Vec<u64> {
    (1..=30).collect()
}

#[test]
fn new_player_gets_first_onboarding_puzzle() {
    let cfg = SelectorConfig::default();
    let attempted: Vec<u64> = Vec::new();
    assert_eq!(select_next_puzzle(&cfg, &attempted, &pool()), Some(3));
}

#[test]
fn after_first_onboarding_comes_the_second() {
    let cfg = SelectorConfig::default();
    // any attempt counts, solved or not
    let attempted: Vec<u64> = vec![3];
    assert_eq!(select_next_puzzle(&cfg, &attempted, &pool()), Some(15));
}

#[test]
fn after_onboarding_a_random_eligible_puzzle_below_the_cutoff() {
    let cfg = SelectorConfig::default();
    let attempted: Vec<u64> = vec![3, 15];
    for _ in 0..50 {
        let picked = select_next_puzzle(&cfg, &attempted, &pool()).unwrap();
        assert!(picked < 20);
        assert!(picked != 3 && picked != 15);
        assert!(pool().contains(&picked));
    }
}

#[test]
fn exhausted_pool_is_an_empty_result() {
    let cfg = SelectorConfig::default();
    let attempted: Vec<u64> = (1..20).collect();
    assert_eq!(select_next_puzzle(&cfg, &attempted, &pool()), None);
}

#[test]
fn requerying_without_a_write_stays_within_the_same_eligible_set() {
    let cfg = SelectorConfig::default();
    let attempted: Vec<u64> = vec![3, 15, 1, 2, 4, 5];
    let eligible: Vec<u64> = (6..20).filter(|p| *p != 15).collect();
    let first = select_next_puzzle(&cfg, &attempted, &pool()).unwrap();
    let second = select_next_puzzle(&cfg, &attempted, &pool()).unwrap();
    assert!(eligible.contains(&first));
    assert!(eligible.contains(&second));
}
