//! What holds of every turn and of every run of turns, proved from the
//! definitions that the turn engine's contract is stated in.

use crate::board::BoardView;
use crate::engine::{candidate, landing, play, sent_home, step, turn_result, MatchView};
use vstd::prelude::*;

verus! {

/// A roll that would pass the winning square leaves the mover where the mover
/// stood, provided no snake or ladder starts on that square.
pub proof fn lemma_overshoot_stays(s: MatchView, board: BoardView, die: nat)
    requires
        s.wf(),
        s.positions[s.current_player as int] + die > board.size,
        !board.snakes.contains_key(s.positions[s.current_player as int]),
        !board.ladders.contains_key(s.positions[s.current_player as int]),
    ensures
        landing(board, s.positions[s.current_player as int], die) == s.positions[s.current_player as int],
        turn_result(s, board, die).positions[s.current_player as int]
            == s.positions[s.current_player as int],
{
}

/// A roll that takes the mover exactly to the winning square ends the match:
/// the mover has won and the turn stays with the mover. A snake whose head is
/// on the winning square would take the mover away again, so the board must
/// have none there.
pub proof fn lemma_exact_roll_wins(s: MatchView, board: BoardView, die: nat)
    requires
        s.wf(),
        board.wf(),
        s.positions[s.current_player as int] + die == board.size,
        !board.snakes.contains_key(board.size),
    ensures
        turn_result(s, board, die).winner == Some(s.current_player),
        turn_result(s, board, die).current_player == s.current_player,
        turn_result(s, board, die).positions[s.current_player as int] == board.size,
        turn_result(s, board, die).finished(),
{
    assert(candidate(s.positions[s.current_player as int], die, board.size) == board.size);
    if board.ladders.contains_key(board.size) {
        assert(board.ladders[board.size] > board.size);
    }
}

/// A mover who reaches the head of a snake comes to rest on its tail, which is
/// never the head.
pub proof fn lemma_snake_takes_to_tail(s: MatchView, board: BoardView, die: nat, head: nat)
    requires
        s.wf(),
        board.wf(),
        candidate(s.positions[s.current_player as int], die, board.size) == head,
        board.snakes.contains_key(head),
    ensures
        landing(board, s.positions[s.current_player as int], die) == board.snakes[head],
        turn_result(s, board, die).positions[s.current_player as int] == board.snakes[head],
        board.snakes[head] != head,
{
}

/// A mover who reaches the bottom of a ladder comes to rest on its top.
pub proof fn lemma_ladder_takes_to_top(s: MatchView, board: BoardView, die: nat, bottom: nat)
    requires
        s.wf(),
        board.wf(),
        candidate(s.positions[s.current_player as int], die, board.size) == bottom,
        board.ladders.contains_key(bottom),
    ensures
        landing(board, s.positions[s.current_player as int], die) == board.ladders[bottom],
        turn_result(s, board, die).positions[s.current_player as int] == board.ladders[bottom],
{
}

/// Where exactly one other player stands on the square on which the mover
/// comes to rest, and that square does not win the match, that player goes
/// home and nobody but the mover and that player changes place.
pub proof fn lemma_lone_collision_sends_home(s: MatchView, board: BoardView, die: nat, other: nat)
    requires
        s.wf(),
        other < s.positions.len(),
        other != s.current_player,
        s.positions[other as int] == landing(board, s.positions[s.current_player as int], die),
        forall|j: int|
            0 <= j < s.positions.len() && j != s.current_player && j != other
                ==> #[trigger] s.positions[j] != landing(
                board,
                s.positions[s.current_player as int],
                die,
            ),
        landing(board, s.positions[s.current_player as int], die) != board.size,
    ensures
        turn_result(s, board, die).positions[other as int] == 0,
        turn_result(s, board, die).positions[s.current_player as int] == landing(
            board,
            s.positions[s.current_player as int],
            die,
        ),
        forall|j: int|
            0 <= j < s.positions.len() && j != s.current_player && j != other ==> turn_result(
                s,
                board,
                die,
            ).positions[j] == #[trigger] s.positions[j],
        !turn_result(s, board, die).finished(),
{
    let square = landing(board, s.positions[s.current_player as int], die);
    assert(sent_home(s.positions, s.current_player, square, other as int));
}

/// A turn sends at most one player home: everybody but the mover and one
/// other player stays in place.
pub proof fn lemma_at_most_one_sent_home(s: MatchView, board: BoardView, die: nat)
    requires
        s.wf(),
    ensures
        forall|i: int, j: int|
            #![trigger turn_result(s, board, die).positions[i], turn_result(s, board, die).positions[j]]
            0 <= i < j < s.positions.len() && i != s.current_player && j != s.current_player
                ==> turn_result(s, board, die).positions[i] == s.positions[i] || turn_result(
                s,
                board,
                die,
            ).positions[j] == s.positions[j],
{
    let square = landing(board, s.positions[s.current_player as int], die);
    assert forall|i: int, j: int|
        0 <= i < j < s.positions.len() && i != s.current_player && j != s.current_player implies (
    #[trigger] turn_result(s, board, die).positions[i]) == s.positions[i] || (#[trigger] turn_result(
        s,
        board,
        die,
    ).positions[j]) == s.positions[j] by {
        if sent_home(s.positions, s.current_player, square, i) && sent_home(
            s.positions,
            s.current_player,
            square,
            j,
        ) {
            assert(s.positions[i] != square);
        }
    }
}

/// A turn keeps a match well formed.
pub proof fn lemma_step_wf(s: MatchView, board: BoardView, die: nat)
    requires
        s.wf(),
    ensures
        step(s, board, die).wf(),
        step(s, board, die).num_players() == s.num_players(),
{
    if !s.finished() {
        let n = s.positions.len();
        assert(0 <= (s.current_player + 1) % n < n);
    }
}

/// On a well-formed board a turn keeps a match sound: nobody comes to stand
/// beyond the winning square, and the winning square holds the winner and
/// nobody else.
pub proof fn lemma_step_sound(s: MatchView, board: BoardView, die: nat)
    requires
        board.wf(),
        s.sound(board.size),
    ensures
        step(s, board, die).sound(board.size),
{
    let after = step(s, board, die);
    lemma_step_wf(s, board, die);
    if !s.finished() {
        let mover = s.current_player as int;
        let from = s.positions[mover];
        assert(from <= board.size);
        let square = landing(board, from, die);
        assert(square <= board.size);
        assert forall|i: int| 0 <= i < after.positions.len() implies (#[trigger] after.positions[i])
            <= board.size && (after.positions[i] == board.size <==> after.winner == Some(
            i as nat,
        )) by {
            if i != mover {
                assert(s.positions[i] <= board.size);
                assert(s.positions[i] != board.size);
            }
        }
    }
}

/// On a well-formed board a run of turns keeps a match sound.
pub proof fn lemma_play_sound(s: MatchView, board: BoardView, dice: Seq<nat>)
    requires
        board.wf(),
        s.sound(board.size),
    ensures
        play(s, board, dice).sound(board.size),
    decreases dice.len(),
{
    if dice.len() > 0 {
        lemma_play_sound(s, board, dice.drop_last());
        lemma_step_sound(play(s, board, dice.drop_last()), board, dice.last());
    }
}

/// A run of turns keeps a match well formed.
pub proof fn lemma_play_wf(s: MatchView, board: BoardView, dice: Seq<nat>)
    requires
        s.wf(),
    ensures
        play(s, board, dice).wf(),
        play(s, board, dice).num_players() == s.num_players(),
    decreases dice.len(),
{
    if dice.len() > 0 {
        lemma_play_wf(s, board, dice.drop_last());
        lemma_step_wf(play(s, board, dice.drop_last()), board, dice.last());
    }
}

/// Once a match has a winner no roll changes anything: the winner, the player
/// whose turn it is and every position stay as they are.
pub proof fn lemma_finished_is_final(s: MatchView, board: BoardView, dice: Seq<nat>)
    requires
        s.finished(),
    ensures
        play(s, board, dice) == s,
    decreases dice.len(),
{
    if dice.len() > 0 {
        lemma_finished_is_final(s, board, dice.drop_last());
    }
}

/// A winner, once set, is kept through every later roll.
pub proof fn lemma_winner_is_kept(s: MatchView, board: BoardView, first: Seq<nat>, more: Seq<nat>)
    requires
        play(s, board, first).finished(),
    ensures
        play(s, board, first + more) == play(s, board, first),
    decreases more.len(),
{
    if more.len() == 0 {
        assert(first + more =~= first);
    } else {
        lemma_winner_is_kept(s, board, first, more.drop_last());
        assert((first + more).drop_last() =~= first + more.drop_last());
        assert((first + more).last() == more.last());
    }
}

/// While no winner is set the turn goes round the players in order: after
/// `k` rolls that leave the match open it is the turn of player
/// `(current + k) mod n`, and the match was open before each of those rolls.
pub proof fn lemma_turns_go_round(s: MatchView, board: BoardView, dice: Seq<nat>)
    requires
        s.wf(),
        !play(s, board, dice).finished(),
    ensures
        !s.finished(),
        play(s, board, dice).current_player == (s.current_player + dice.len()) % s.num_players(),
    decreases dice.len(),
{
    let n = s.num_players();
    let c = s.current_player;
    if dice.len() == 0 {
        assert(c % n == c) by (nonlinear_arith)
            requires
                c < n,
        ;
    } else {
        let before = play(s, board, dice.drop_last());
        lemma_play_wf(s, board, dice.drop_last());
        if before.finished() {
            assert(play(s, board, dice) == before);
        }
        lemma_turns_go_round(s, board, dice.drop_last());
        let k = dice.drop_last().len();
        assert(before.current_player == (c + k) % n);
        assert(play(s, board, dice).current_player == (before.current_player + 1) % n);
        assert(((c + k) % n + 1) % n == (c + k + 1) % n) by (nonlinear_arith)
            requires
                n > 0,
        ;
    }
}

} // verus!
