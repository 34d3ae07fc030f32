use snake_ladder::narration::{
    ladder_text, move_text, roll_text, send_home_text, snake_text, start_text, win_text,
};
use snake_ladder::text::{pad_right, push_decimal};

fn decimal(n: u64) -> String {
    let mut out = String::new();
    push_decimal(&mut out, n);
    out
}

#[test]
fn decimal_numerals() {
    assert_eq!(decimal(0), "0");
    assert_eq!(decimal(7), "7");
    assert_eq!(decimal(10), "10");
    assert_eq!(decimal(100), "100");
    assert_eq!(decimal(1234567890), "1234567890");
    assert_eq!(decimal(4294967295), "4294967295");
    assert_eq!(decimal(u64::MAX), "18446744073709551615");
    for n in 0..2000u64 {
        assert_eq!(decimal(n), n.to_string());
    }
}

#[test]
fn push_decimal_appends() {
    let mut out = String::from("square ");
    push_decimal(&mut out, 42);
    push_decimal(&mut out, 0);
    assert_eq!(out, "square 420");
}

#[test]
fn pad_right_fills_with_spaces() {
    let mut out = String::from("ab");
    pad_right(&mut out, 5);
    assert_eq!(out, "ab   ");
    pad_right(&mut out, 5);
    assert_eq!(out, "ab   ");
    pad_right(&mut out, 2);
    assert_eq!(out, "ab   ");
    let mut empty = String::new();
    pad_right(&mut empty, 0);
    assert_eq!(empty, "");
    pad_right(&mut empty, 3);
    assert_eq!(empty, "   ");
    let mut arrow = String::from("S\u{2192}6");
    pad_right(&mut arrow, 4);
    assert_eq!(arrow, "S\u{2192}6 ");
}

#[test]
fn sentences_read_as_they_should() {
    assert_eq!(
        snake_text(1, 16, 16, 6),
        "Player 1 rolled 16, climbed to 16, but was bitten by a snake and fell to 6!"
    );
    assert_eq!(ladder_text(2, 3, 4, 14), "Player 2 rolled 3, climbed a ladder from 4 to 14!");
    assert_eq!(move_text(3, 6, 95), "Player 3 rolled 6, and moved to position 95");
    assert_eq!(
        send_home_text(2, 5, 38, 1),
        "Oops! Player 2 rolled 5 and moved to position 38 and sent Player 1 back to home base!"
    );
    assert_eq!(win_text(4), "Player 4 wins!");
    assert_eq!(roll_text(1, 6), "Player 1 rolled a 6");
    assert_eq!(start_text(), "Game started! Player 1's turn.");
}
