//! What the game says about a turn: one sentence for each kind of outcome.
//!
//! Players are named by their number, which is their index plus one.

use crate::text::{decimal, push_decimal};
use vstd::prelude::*;
use vstd::string::StringExecFns;

verus! {

/// The sentence for a move that ended on a snake's head.
pub open spec fn snake_message(player: nat, die: nat, head: nat, tail: nat) -> Seq<char> {
    "Player "@ + decimal(player) + " rolled "@ + decimal(die) + ", climbed to "@ + decimal(head)
        + ", but was bitten by a snake and fell to "@ + decimal(tail) + "!"@
}

/// The sentence for a move that ended at the bottom of a ladder.
pub open spec fn ladder_message(player: nat, die: nat, bottom: nat, top: nat) -> Seq<char> {
    "Player "@ + decimal(player) + " rolled "@ + decimal(die) + ", climbed a ladder from "@
        + decimal(bottom) + " to "@ + decimal(top) + "!"@
}

/// The sentence for a move that met neither snake nor ladder.
pub open spec fn move_message(player: nat, die: nat, square: nat) -> Seq<char> {
    "Player "@ + decimal(player) + " rolled "@ + decimal(die) + ", and moved to position "@
        + decimal(square)
}

/// The sentence for a move that sent another player home.
pub open spec fn send_home_message(player: nat, die: nat, square: nat, other: nat) -> Seq<char> {
    "Oops! Player "@ + decimal(player) + " rolled "@ + decimal(die) + " and moved to position "@
        + decimal(square) + " and sent Player "@ + decimal(other) + " back to home base!"@
}

/// The sentence for a move that won the match.
pub open spec fn win_message(player: nat) -> Seq<char> {
    "Player "@ + decimal(player) + " wins!"@
}

/// The sentence for a roll of the die, before the move.
pub open spec fn roll_message(player: nat, die: nat) -> Seq<char> {
    "Player "@ + decimal(player) + " rolled a "@ + decimal(die)
}

/// The sentence that opens a match.
pub open spec fn start_message() -> Seq<char> {
    "Game started! Player 1's turn."@
}

/// Writes [`snake_message`].
pub fn snake_text(player: u64, die: u64, head: u64, tail: u64) -> (text: String)
    ensures
        text@ == snake_message(player as nat, die as nat, head as nat, tail as nat),
{
    let mut text = String::from_str("Player ");
    push_decimal(&mut text, player);
    text.append(" rolled ");
    push_decimal(&mut text, die);
    text.append(", climbed to ");
    push_decimal(&mut text, head);
    text.append(", but was bitten by a snake and fell to ");
    push_decimal(&mut text, tail);
    text.append("!");
    text
}

/// Writes [`ladder_message`].
pub fn ladder_text(player: u64, die: u64, bottom: u64, top: u64) -> (text: String)
    ensures
        text@ == ladder_message(player as nat, die as nat, bottom as nat, top as nat),
{
    let mut text = String::from_str("Player ");
    push_decimal(&mut text, player);
    text.append(" rolled ");
    push_decimal(&mut text, die);
    text.append(", climbed a ladder from ");
    push_decimal(&mut text, bottom);
    text.append(" to ");
    push_decimal(&mut text, top);
    text.append("!");
    text
}

/// Writes [`move_message`].
pub fn move_text(player: u64, die: u64, square: u64) -> (text: String)
    ensures
        text@ == move_message(player as nat, die as nat, square as nat),
{
    let mut text = String::from_str("Player ");
    push_decimal(&mut text, player);
    text.append(" rolled ");
    push_decimal(&mut text, die);
    text.append(", and moved to position ");
    push_decimal(&mut text, square);
    text
}

/// Writes [`send_home_message`].
pub fn send_home_text(player: u64, die: u64, square: u64, other: u64) -> (text: String)
    ensures
        text@ == send_home_message(player as nat, die as nat, square as nat, other as nat),
{
    let mut text = String::from_str("Oops! Player ");
    push_decimal(&mut text, player);
    text.append(" rolled ");
    push_decimal(&mut text, die);
    text.append(" and moved to position ");
    push_decimal(&mut text, square);
    text.append(" and sent Player ");
    push_decimal(&mut text, other);
    text.append(" back to home base!");
    text
}

/// Writes [`win_message`].
pub fn win_text(player: u64) -> (text: String)
    ensures
        text@ == win_message(player as nat),
{
    let mut text = String::from_str("Player ");
    push_decimal(&mut text, player);
    text.append(" wins!");
    text
}

/// Writes [`roll_message`].
pub fn roll_text(player: u64, die: u64) -> (text: String)
    ensures
        text@ == roll_message(player as nat, die as nat),
{
    let mut text = String::from_str("Player ");
    push_decimal(&mut text, player);
    text.append(" rolled a ");
    push_decimal(&mut text, die);
    text
}

/// Writes [`start_message`].
pub fn start_text() -> (text: String)
    ensures
        text@ == start_message(),
{
    String::from_str("Game started! Player 1's turn.")
}

} // verus!
