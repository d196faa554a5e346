use puzzle_engine::ledger::{first_attempts_by_player, first_attempts_for_puzzle, Attempt, PlayerRating};

fn attempt(puzzle_id: u64, player: &str, solved: bool, ts: u64) -> Attempt {
    Attempt {
        puzzle_id,
        player_id: player.to_string(),
        solved,
        solve_time_seconds: 30,
        timestamp_seconds: ts,
    }
}

#[test]
fn by_player_keeps_min_timestamp_per_puzzle() {
    let attempts = vec![
        attempt(7, "alice", false, 100),
        attempt(7, "alice", true, 50),
        attempt(9, "alice", true, 10),
        attempt(7, "alice", true, 70),
    ];
    let mut firsts = first_attempts_by_player(&attempts);
    assert_eq!(firsts.len(), 2);
    firsts.sort_by_key(|a| a.puzzle_id);
    assert_eq!(firsts[0].puzzle_id, 7);
    assert_eq!(firsts[0].timestamp_seconds, 50);
    assert!(firsts[0].solved);
    assert_eq!(firsts[1].puzzle_id, 9);
    assert_eq!(firsts[1].timestamp_seconds, 10);
}

#[test]
fn by_player_breaks_timestamp_ties_by_record_order() {
    let attempts = vec![attempt(4, "bob", false, 20), attempt(4, "bob", true, 20)];
    let firsts = first_attempts_by_player(&attempts);
    assert_eq!(firsts.len(), 1);
    assert!(!firsts[0].solved);
}

#[test]
fn by_player_empty_log_gives_empty_result() {
    let firsts = first_attempts_by_player(&Vec::new());
    assert!(firsts.is_empty());
}

fn rating_table() -> Vec<PlayerRating> {
    vec![
        PlayerRating { player_id: "alice".to_string(), rating: 1600 },
        PlayerRating { player_id: "bob".to_string(), rating: 1400 },
        PlayerRating { player_id: "admin".to_string(), rating: 1500 },
    ]
}

#[test]
fn for_puzzle_dedups_per_player_and_joins_ratings() {
    let attempts = vec![
        attempt(7, "alice", false, 100),
        attempt(7, "alice", true, 40),
        attempt(7, "bob", true, 60),
        attempt(9, "bob", false, 10),
        attempt(7, "carol", true, 5),
    ];
    let denylist: Vec<String> = vec!["admin".to_string()];
    let mut sample = first_attempts_for_puzzle(&attempts, 7, &denylist, &rating_table());
    // carol has no rating entry, puzzle 9 is out of scope
    assert_eq!(sample.len(), 2);
    sample.sort_by(|a, b| a.player_id.cmp(&b.player_id));
    assert_eq!(sample[0].player_id, "alice");
    assert!(sample[0].solved); // alice's earliest attempt (ts 40) solved it
    assert_eq!(sample[0].rating, 1600);
    assert_eq!(sample[1].player_id, "bob");
    assert!(sample[1].solved);
    assert_eq!(sample[1].rating, 1400);
}

#[test]
fn for_puzzle_excludes_denylisted_even_when_only_attempts() {
    let attempts = vec![attempt(7, "admin", true, 10), attempt(7, "admin", false, 3)];
    let denylist: Vec<String> = vec!["admin".to_string()];
    let sample = first_attempts_for_puzzle(&attempts, 7, &denylist, &rating_table());
    assert!(sample.is_empty());
}
