use guessing_game::game::{compare, outcome_message, run_script, Game, Outcome, Reply};

#[test]
fn compare_equal_iff_same() {
    for g in 1u32..=100 {
        for s in 1u32..=100 {
            let o = compare(g, s);
            if g < s {
                assert_eq!(o, Outcome::Less);
            } else if g > s {
                assert_eq!(o, Outcome::Greater);
            } else {
                assert_eq!(o, Outcome::Equal);
            }
            assert_eq!(o == Outcome::Equal, g == s);
        }
    }
}

#[test]
fn nonmatching_guesses_change_nothing() {
    let mut game = Game::with_secret(10);
    for line in ["5", "99", "abc", "  3 ", "10000000000"] {
        let _ = game.step(line);
        assert_eq!(game.secret_value(), 10);
        assert!(!game.has_won());
    }
}

#[test]
fn unparsable_line_is_ignored() {
    let mut game = Game::with_secret(42);
    assert_eq!(game.step("abc"), Reply::Ignored);
    assert_eq!(game.step(""), Reply::Ignored);
    assert_eq!(game.step("-3"), Reply::Ignored);
    assert!(!game.has_won());
}

#[test]
fn judged_reply_carries_guess_and_outcome() {
    let mut game = Game::with_secret(42);
    assert_eq!(game.step(" 41 \n"), Reply::Judged(41, Outcome::Less));
    assert_eq!(game.step("43"), Reply::Judged(43, Outcome::Greater));
    assert_eq!(game.step("42"), Reply::Judged(42, Outcome::Equal));
    assert!(game.has_won());
}

#[test]
fn scripted_run_terminates_on_win() {
    let lines = vec!["10".to_string(), "90".to_string(), "50".to_string()];
    let (outcomes, won) = run_script(50, &lines);
    assert_eq!(outcomes, vec![Outcome::Less, Outcome::Greater, Outcome::Equal]);
    assert!(won);
    let messages: Vec<&str> = outcomes.iter().map(|o| outcome_message(*o)).collect();
    assert_eq!(messages, vec!["Too small!", "Too big!", "You win!"]);
}

#[test]
fn scripted_run_stops_at_first_win() {
    let lines = vec!["7".to_string(), "8".to_string(), "9".to_string()];
    let (outcomes, won) = run_script(7, &lines);
    assert_eq!(outcomes, vec![Outcome::Equal]);
    assert!(won);
}

#[test]
fn scripted_run_skips_unparsable_lines() {
    let lines = vec!["abc".to_string(), "  ".to_string(), "60".to_string()];
    let (outcomes, won) = run_script(50, &lines);
    assert_eq!(outcomes, vec![Outcome::Greater]);
    assert!(!won);
}

#[test]
fn boundary_win_on_first_attempt() {
    let lines = vec!["1".to_string()];
    let (outcomes, won) = run_script(1, &lines);
    assert_eq!(outcomes, vec![Outcome::Equal]);
    assert!(won);
    let mut game = Game::with_secret(1);
    assert_eq!(game.step("1"), Reply::Judged(1, Outcome::Equal));
    assert!(game.has_won());
}

#[test]
fn outcome_messages_are_exact() {
    assert_eq!(outcome_message(Outcome::Less), "Too small!");
    assert_eq!(outcome_message(Outcome::Greater), "Too big!");
    assert_eq!(outcome_message(Outcome::Equal), "You win!");
}

#[test]
fn generated_secrets_stay_in_range() {
    let mut low_half = 0u32;
    let mut high_half = 0u32;
    for _ in 0..2000 {
        let game = Game::new();
        let secret = game.secret_value();
        assert!((1..=100).contains(&secret));
        assert!(!game.has_won());
        if secret <= 50 {
            low_half += 1;
        } else {
            high_half += 1;
        }
    }
    assert!(low_half > 0);
    assert!(high_half > 0);
}
