use duel::classes::Player;
use duel::game_runner::{re_run_round, re_run_turn};

#[test]
fn test_re_run_turn_yes() {
    // Simulate user input "y"
    assert!(re_run_turn("y\n".as_bytes()));
}

#[test]
fn test_re_run_turn_no() {
    // Simulate user input "n"
    assert!(!re_run_turn("n\n".as_bytes()));
}

#[test]
fn test_re_run_round_yes() {
    let p1 = Player::new("Alice".to_string(), 50, 50, 50);
    let p2 = Player::new("Bob".to_string(), 50, 50, 50);
    // Simulate user input "y" when both players have vitality.
    assert!(re_run_round(&p1, &p2, "y\n".as_bytes()));
}

#[test]
fn test_re_run_round_no() {
    let p1 = Player::new("Alice".to_string(), 50, 50, 50);
    let p2 = Player::new("Bob".to_string(), 50, 50, 50);
    // Simulate user input "n".
    assert!(!re_run_round(&p1, &p2, "n\n".as_bytes()));
}

#[test]
fn test_re_run_round_game_over() {
    let p1 = Player::new("Alice".to_string(), 0, 50, 50); // p1 has zero vitality
    let p2 = Player::new("Bob".to_string(), 50, 50, 50);
    // Even if user input is "y", the function should return false because a
    // player's vitality is 0.
    assert!(!re_run_round(&p1, &p2, "y\n".as_bytes()));
}

#[test]
fn test_affirmative_is_case_insensitive_and_trimmed() {
    assert!(re_run_turn("  Y \n".as_bytes()));
    assert!(!re_run_turn("yes\n".as_bytes()));
    assert!(!re_run_turn("".as_bytes()));
}
