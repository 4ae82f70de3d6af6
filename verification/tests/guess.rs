use guess_swap::guess::GuessGame;
use guess_swap::guess::Reply;
use guess_swap::guess::message;
use guess_swap::parse::parse_u32;

#[test]
fn guess_below_secret_is_too_small() {
    let mut game = GuessGame::new(50);
    let r = game.step(b"10");
    assert_eq!(r, Reply::TooSmall);
    assert!(!game.done);
    assert_eq!(game.secret, 50);
}

#[test]
fn guess_above_secret_is_too_big() {
    let mut game = GuessGame::new(50);
    let r = game.step(b"99");
    assert_eq!(r, Reply::TooBig);
    assert!(!game.done);
    assert_eq!(game.secret, 50);
}

#[test]
fn guess_equal_to_secret_wins_and_ends_the_game() {
    let mut game = GuessGame::new(50);
    let r = game.step(b"50");
    assert_eq!(r, Reply::Win);
    assert!(game.done);
    assert_eq!(game.secret, 50);
}

#[test]
fn non_numeric_input_asks_for_a_retry_and_changes_nothing() {
    let mut game = GuessGame::new(50);
    let r = game.step(b"fifty");
    assert_eq!(r, Reply::Retry);
    assert!(!game.done);
    assert_eq!(game.secret, 50);
}

#[test]
fn full_game_against_secret_42() {
    let mut game = GuessGame::new(42);
    let mut outputs: Vec<&str> = Vec::new();
    for line in [&b"10"[..], &b"abc"[..], &b"42"[..]] {
        assert!(!game.done);
        let r = game.step(line);
        outputs.push(message(r));
    }
    assert_eq!(
        outputs,
        vec!["Too small guess!", "Please input number next time!", "You won!"]
    );
    assert!(game.done);
    assert_eq!(game.secret, 42);
}

#[test]
fn messages_are_the_exact_lines_printed() {
    assert_eq!(message(Reply::Retry), "Please input number next time!");
    assert_eq!(message(Reply::TooSmall), "Too small guess!");
    assert_eq!(message(Reply::TooBig), "Too big guess!");
    assert_eq!(message(Reply::Win), "You won!");
}

#[test]
fn random_secret_lies_in_the_documented_range() {
    for _ in 0..100 {
        let game = GuessGame::new_random();
        assert!(1 <= game.secret && game.secret <= 100);
        assert!(!game.done);
    }
}

#[test]
fn parse_accepts_plain_numbers() {
    assert_eq!(parse_u32(b"0"), Some(0));
    assert_eq!(parse_u32(b"42"), Some(42));
    assert_eq!(parse_u32(b"100"), Some(100));
    assert_eq!(parse_u32(b"4294967295"), Some(u32::MAX));
}

#[test]
fn parse_trims_whitespace_as_a_line_of_input_carries_it() {
    assert_eq!(parse_u32(b"42\n"), Some(42));
    assert_eq!(parse_u32(b"  42 \r\n"), Some(42));
    assert_eq!(parse_u32(b"\t7\t"), Some(7));
}

#[test]
fn parse_accepts_one_leading_plus_sign() {
    assert_eq!(parse_u32(b"+5"), Some(5));
    assert_eq!(parse_u32(b" +31 \n"), Some(31));
    assert_eq!(parse_u32(b"+"), None);
    assert_eq!(parse_u32(b"++1"), None);
}

#[test]
fn parse_rejects_what_is_not_a_number() {
    assert_eq!(parse_u32(b""), None);
    assert_eq!(parse_u32(b"   \n"), None);
    assert_eq!(parse_u32(b"abc"), None);
    assert_eq!(parse_u32(b"42abc"), None);
    assert_eq!(parse_u32(b"4 2"), None);
    assert_eq!(parse_u32(b"-1"), None);
    assert_eq!(parse_u32(b"12.5"), None);
}

#[test]
fn parse_rejects_values_that_do_not_fit() {
    assert_eq!(parse_u32(b"4294967296"), None);
    assert_eq!(parse_u32(b"99999999999999999999999999"), None);
}

#[test]
fn parse_agrees_with_the_standard_parser_on_sample_lines() {
    let lines = [
        "42", " 42\n", "abc", "", "+17", "4294967295", "4294967296", "007", "-3", "1e3",
    ];
    for line in lines {
        assert_eq!(parse_u32(line.as_bytes()), line.trim().parse::<u32>().ok());
    }
}
