use puzzle_engine::puzzle::{estimate_target_time, puzzle_from_row, PuzzleRow};
use puzzle_engine::tokens::split_tokens;
use puzzle_engine::{validate_player_id, EngineError};

#[test]
fn split_tokens_splits_on_whitespace_runs() {
    let toks = split_tokens("a b  c\td");
    assert_eq!(toks, vec!["a", "b", "c", "d"]);
    assert_eq!(split_tokens(""), Vec::<String>::new());
    assert_eq!(split_tokens("   "), Vec::<String>::new());
    assert_eq!(split_tokens(" lone "), vec!["lone"]);
}

#[test]
fn target_time_stays_in_the_formula_window() {
    // 6 piece markers => pieceCount 3; 4 tokens => plyPairs 2;
    // low = (20 + 3) * 2 = 46; the draw lies in [46, 55.2)
    for _ in 0..200 {
        let t = estimate_target_time("1,2,x/1x2,12", "a b c d");
        assert!((46..=55).contains(&t));
    }
}

#[test]
fn target_time_with_no_pieces_counts_pairs_alone() {
    // no markers => pieceCount 0; 1 token => plyPairs 1; low = 20
    for _ in 0..100 {
        let t = estimate_target_time("x,x,x/x,x,x", "a");
        assert!((20..24).contains(&t));
    }
}

#[test]
fn serving_a_row_splits_the_solution_and_keeps_the_fields() {
    let row = PuzzleRow {
        id: 42,
        root_tps: "2,x,1,1/2,1,x,2 2 12".to_string(),
        defender_start_move: "d4-".to_string(),
        size: 6,
        komi: "2".to_string(),
        player_white: "white".to_string(),
        player_black: "black".to_string(),
        solution: "5e3< d4- 3e3+12 *".to_string(),
        initial_rating: None,
        rating: None,
        target_time_seconds: 60,
        playtak_game_id: 491458,
    };
    let p = puzzle_from_row(&row);
    assert_eq!(p.id, 42);
    assert_eq!(p.size, 6);
    assert_eq!(p.komi, "2");
    assert_eq!(p.root_tps, row.root_tps);
    assert_eq!(p.defender_start_move, "d4-");
    assert_eq!(p.solution, vec!["5e3<", "d4-", "3e3+12", "*"]);
    assert_eq!(p.player_white, "white");
    assert_eq!(p.player_black, "black");
    assert_eq!(p.playtak_game_id, 491458);
    // 9 markers in the position ('1' and '2', the trailing move counter included)
    // => pieceCount 4; 4 tokens => plyPairs 2; low = 48
    assert!(p.target_time_seconds >= 48);
    assert!(5 * p.target_time_seconds < 6 * 48);
}

#[test]
fn empty_player_identity_is_rejected_before_storage() {
    assert_eq!(validate_player_id(&String::new()), Err(EngineError::InvalidInput));
    assert_eq!(validate_player_id(&"alice".to_string()), Ok(()));
}
