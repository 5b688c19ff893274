use guessing_game::Feedback;
use guessing_game::GuessingGame;
use guessing_game::feedback_text;
use guessing_game::intro_text;
use guessing_game::prompt_text;
use guessing_game::reverse;

#[test]
fn every_secret_is_won_by_itself() {
    for n in 1..=10u32 {
        let mut game = GuessingGame::new(n);
        let reply = game.step(&format!("{}", n));
        assert_eq!(reply, Some((n, Feedback::Win)));
        assert!(game.is_won());
    }
}

#[test]
fn malformed_lines_are_silently_skipped() {
    let mut game = GuessingGame::new(4);
    for s in ["", "abc", "3.5", "-1", "  ", "+", "x", "1e3"] {
        let reply = game.step(s);
        assert_eq!(reply, None);
        assert!(!game.is_won());
    }
}

#[test]
fn wrong_guesses_draw_feedback_and_continue() {
    let mut game = GuessingGame::new(5);
    assert_eq!(game.step("3"), Some((3, Feedback::TooSmall)));
    assert!(!game.is_won());
    assert_eq!(game.step("8"), Some((8, Feedback::TooBig)));
    assert!(!game.is_won());
}

#[test]
fn repeated_malformed_input_changes_nothing() {
    let mut game = GuessingGame::new(5);
    for _ in 0..20 {
        assert_eq!(game.step("abc"), None);
        assert!(!game.is_won());
    }
    assert_eq!(game.step("5"), Some((5, Feedback::Win)));
    assert!(game.is_won());
}

#[test]
fn scenario_secret_seven() {
    let mut game = GuessingGame::new(7);
    assert_eq!(game.step("x"), None);
    assert!(!game.is_won());
    assert_eq!(game.step("3"), Some((3, Feedback::TooSmall)));
    assert!(!game.is_won());
    assert_eq!(game.step("9"), Some((9, Feedback::TooBig)));
    assert!(!game.is_won());
    assert_eq!(game.step("7"), Some((7, Feedback::Win)));
    assert!(game.is_won());
}

#[test]
fn scenario_secret_one() {
    let mut game = GuessingGame::new(1);
    assert_eq!(game.step("1"), Some((1, Feedback::Win)));
    assert!(game.is_won());
}

#[test]
fn scenario_secret_ten_boundary() {
    let mut game = GuessingGame::new(10);
    assert_eq!(game.step("10"), Some((10, Feedback::Win)));
    assert!(game.is_won());

    let mut other = GuessingGame::new(10);
    assert_eq!(other.step("11"), Some((11, Feedback::TooBig)));
    assert!(!other.is_won());
}

#[test]
fn random_secret_lies_in_range() {
    for _ in 0..20 {
        let mut game = GuessingGame::with_random_secret();
        let mut guesses = 0;
        for g in 1..=10u32 {
            if game.is_won() {
                break;
            }
            let reply = game.step(&format!("{}", g));
            guesses += 1;
            assert!(reply.is_some());
        }
        assert!(game.is_won());
        assert!(guesses <= 10);
    }
}

#[test]
fn fixed_message_texts() {
    assert_eq!(intro_text(), "Guess the secret number");
    assert_eq!(prompt_text(), "Please input your guess.");
    assert_eq!(feedback_text(Feedback::TooSmall), "Too small!");
    assert_eq!(feedback_text(Feedback::TooBig), "Too Big");
    assert_eq!(feedback_text(Feedback::Win), "You Win");
}

#[test]
fn reverse_swaps_the_pair() {
    assert_eq!(reverse((1, true)), (true, 1));
    assert_eq!(reverse((-7, false)), (false, -7));
}
