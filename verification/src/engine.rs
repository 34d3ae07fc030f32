//! The turn engine: one die value in, the next state of the match and one
//! sentence out.
//!
//! The rules apply in a fixed order. The mover advances by the die, unless
//! that would pass the winning square, in which case the mover stays. A snake
//! on the square reached takes the mover down, else a ladder takes the mover
//! up. The lowest-numbered other player found on the square where the mover
//! comes to rest goes home to square 0. If that square is the winning square
//! the mover has won and the turn stays with the mover; otherwise the turn
//! passes to the next player.
//!
//! A [`MatchState`] is always sound for the board of [`BOARD_SIZE`] squares:
//! two to four players, none beyond the winning square, and on the winning
//! square the winner and nobody else.

use crate::board::{BoardConfig, BoardView, ConfigError, BOARD_SIZE};
use crate::narration::{
    ladder_message, ladder_text, move_message, move_text, send_home_message, send_home_text,
    snake_message, snake_text, win_message, win_text,
};
use vstd::prelude::*;

verus! {

/// The fewest players a match can have.
pub const MIN_PLAYERS: usize = 2;

/// The most players a match can have.
pub const MAX_PLAYERS: usize = 4;

/// Why a turn was not resolved.
#[derive(Debug, Clone, Copy, PartialEq, Eq, Structural)]
pub enum TurnError {
    /// The match already has a winner.
    MatchFinished,
}

/// A match as contracts see it.
pub struct MatchView {
    /// The square of each player, by player index; 0 is home.
    pub positions: Seq<nat>,
    /// The index of the player whose turn it is.
    pub current_player: nat,
    /// The index of the player who has won, once one has.
    pub winner: Option<nat>,
}

impl MatchView {
    /// Two to four players, and every index names one of them.
    pub open spec fn wf(self) -> bool {
        &&& MIN_PLAYERS <= self.positions.len() <= MAX_PLAYERS
        &&& self.current_player < self.positions.len()
        &&& self.winner matches Some(w) ==> w < self.positions.len()
    }

    /// How many players the match has.
    pub open spec fn num_players(self) -> nat {
        self.positions.len()
    }

    /// Whether the match has a winner.
    pub open spec fn finished(self) -> bool {
        self.winner is Some
    }

    /// Whether no player stands beyond square `size`.
    pub open spec fn within(self, size: nat) -> bool {
        forall|i: int| 0 <= i < self.positions.len() ==> #[trigger] self.positions[i] <= size
    }

    /// Whether the players on square `size` are exactly the winner: whoever
    /// stands there has won, and whoever has won stands there.
    pub open spec fn crowned(self, size: nat) -> bool {
        forall|i: int|
            0 <= i < self.positions.len() ==> (#[trigger] self.positions[i] == size
                <==> self.winner == Some(i as nat))
    }

    /// The first thing that is wrong with the match on a board whose winning
    /// square is `size`, if anything is: the number of players comes first,
    /// then a current player or winner who is not one of them, then a player
    /// beyond the winning square, then a winner who does not stand on the
    /// winning square or a player who stands there without having won.
    pub open spec fn fault(self, size: nat) -> Option<ConfigError> {
        if !(MIN_PLAYERS <= self.positions.len() <= MAX_PLAYERS) {
            Some(ConfigError::PlayerCount)
        } else if !self.wf() {
            Some(ConfigError::PlayerIndex)
        } else if !self.within(size) {
            Some(ConfigError::SquareOutOfRange)
        } else if !self.crowned(size) {
            Some(ConfigError::WinnerMismatch)
        } else {
            None
        }
    }

    /// A match that can be played on a board whose winning square is `size`.
    pub open spec fn sound(self, size: nat) -> bool {
        &&& self.wf()
        &&& self.within(size)
        &&& self.crowned(size)
    }

    /// The start of a match of `n` players: all at home, the first to move.
    pub open spec fn start(n: nat) -> MatchView {
        MatchView { positions: Seq::new(n, |i: int| 0nat), current_player: 0, winner: None }
    }
}

/// The square reached by the die alone: `from + die`, or `from` where that
/// would pass `size`.
pub open spec fn candidate(from: nat, die: nat, size: nat) -> nat {
    if from + die > size {
        from
    } else {
        from + die
    }
}

/// The square where a player on `from` comes to rest after rolling `die`.
pub open spec fn landing(board: BoardView, from: nat, die: nat) -> nat {
    board.redirect(candidate(from, die, board.size))
}

/// Player `i` is the lowest-numbered player other than `mover` who stands on
/// `square`.
pub open spec fn sent_home(positions: Seq<nat>, mover: nat, square: nat, i: int) -> bool {
    &&& 0 <= i < positions.len()
    &&& i != mover
    &&& positions[i] == square
    &&& forall|j: int| 0 <= j < i && j != mover ==> #[trigger] positions[j] != square
}

/// The player whom a mover that comes to rest on `square` sends home, if
/// there is one.
pub open spec fn displaced(positions: Seq<nat>, mover: nat, square: nat) -> Option<nat> {
    if exists|i: int| sent_home(positions, mover, square, i) {
        Some((choose|i: int| sent_home(positions, mover, square, i)) as nat)
    } else {
        None
    }
}

/// The positions after `mover` has come to rest on `square`: the mover is
/// there, the displaced player is home, nobody else has moved.
pub open spec fn positions_after(positions: Seq<nat>, mover: nat, square: nat) -> Seq<nat> {
    Seq::new(
        positions.len(),
        |i: int|
            if i == mover {
                square
            } else if sent_home(positions, mover, square, i) {
                0
            } else {
                positions[i]
            },
    )
}

/// The match after the current player of `s` has rolled `die` on `board`.
pub open spec fn turn_result(s: MatchView, board: BoardView, die: nat) -> MatchView {
    let mover = s.current_player;
    let square = landing(board, s.positions[mover as int], die);
    let positions = positions_after(s.positions, mover, square);
    if square == board.size {
        MatchView { positions, current_player: mover, winner: Some(mover) }
    } else {
        MatchView { positions, current_player: (mover + 1) % s.positions.len(), winner: None }
    }
}

/// One call of the engine: a turn on a match that is open, nothing on a match
/// that has a winner.
pub open spec fn step(s: MatchView, board: BoardView, die: nat) -> MatchView {
    if s.finished() {
        s
    } else {
        turn_result(s, board, die)
    }
}

/// The match after the rolls `dice` have been resolved one after another.
pub open spec fn play(s: MatchView, board: BoardView, dice: Seq<nat>) -> MatchView
    decreases dice.len(),
{
    if dice.len() == 0 {
        s
    } else {
        step(play(s, board, dice.drop_last()), board, dice.last())
    }
}

/// The sentence for the turn in which the current player of `s` rolls `die`
/// on `board`. A win is announced before anything else, then a player sent
/// home, then a snake, a ladder, a plain move.
pub open spec fn turn_narration(s: MatchView, board: BoardView, die: nat) -> Seq<char> {
    let mover = s.current_player;
    let reached = candidate(s.positions[mover as int], die, board.size);
    let square = board.redirect(reached);
    if square == board.size {
        win_message(mover + 1)
    } else {
        match displaced(s.positions, mover, square) {
            Some(other) => send_home_message(mover + 1, die, square, other + 1),
            None => if board.snakes.contains_key(reached) {
                snake_message(mover + 1, die, reached, square)
            } else if board.ladders.contains_key(reached) {
                ladder_message(mover + 1, die, reached, square)
            } else {
                move_message(mover + 1, die, reached)
            },
        }
    }
}

/// At most one player is sent home, and `displaced` names that player.
pub proof fn lemma_displaced(positions: Seq<nat>, mover: nat, square: nat)
    ensures
        forall|i: int|
            sent_home(positions, mover, square, i) ==> displaced(positions, mover, square) == Some(
                i as nat,
            ),
        displaced(positions, mover, square) is None <==> forall|i: int|
            0 <= i < positions.len() && i != mover ==> #[trigger] positions[i] != square,
{
    assert forall|i: int| sent_home(positions, mover, square, i) implies displaced(
        positions,
        mover,
        square,
    ) == Some(i as nat) by {
        let c = choose|c: int| sent_home(positions, mover, square, c);
        assert(sent_home(positions, mover, square, c));
        if c < i {
            assert(positions[c] != square);
        } else if i < c {
            assert(positions[i] != square);
        }
    }
    if exists|i: int| 0 <= i < positions.len() && i != mover && positions[i] == square {
        let w = choose|i: int| 0 <= i < positions.len() && i != mover && positions[i] == square;
        lemma_someone_is_first(positions, mover, square, w);
    }
}

/// Where some other player stands on `square` at or below index `upto`, one of
/// them is the lowest-numbered.
proof fn lemma_someone_is_first(positions: Seq<nat>, mover: nat, square: nat, upto: int)
    requires
        0 <= upto < positions.len(),
        upto != mover,
        positions[upto] == square,
    ensures
        exists|i: int| sent_home(positions, mover, square, i),
    decreases upto,
{
    if exists|j: int| 0 <= j < upto && j != mover && positions[j] == square {
        let j = choose|j: int| 0 <= j < upto && j != mover && positions[j] == square;
        lemma_someone_is_first(positions, mover, square, j);
    } else {
        assert(sent_home(positions, mover, square, upto));
    }
}

/// A row of squares as plain numbers.
pub open spec fn squares(row: Seq<u32>) -> Seq<nat> {
    Seq::new(row.len(), |i: int| row[i] as nat)
}

/// The lowest-numbered player other than `mover` who stands on `square`.
pub(crate) fn first_other_on(positions: &Vec<u32>, mover: usize, square: u32) -> (found: Option<usize>)
    ensures
        match found {
            Some(i) => displaced(squares(positions@), mover as nat, square as nat) == Some(
                i as nat,
            ) && i < positions@.len() && i != mover,
            None => displaced(squares(positions@), mover as nat, square as nat) is None,
        },
{
    let ghost row = squares(positions@);
    let mut i: usize = 0;
    while i < positions.len()
        invariant
            i <= positions@.len(),
            row == squares(positions@),
            forall|j: int| 0 <= j < i && j != mover ==> #[trigger] row[j] != square,
        decreases positions@.len() - i,
    {
        if i != mover && positions[i] == square {
            proof {
                assert(sent_home(row, mover as nat, square as nat, i as int));
                lemma_displaced(row, mover as nat, square as nat);
            }
            return Some(i);
        }
        i = i + 1;
    }
    proof {
        lemma_displaced(row, mover as nat, square as nat);
    }
    None
}

/// The row after `mover` has come to rest on `square` and has sent `other`
/// home.
fn rearranged(positions: &Vec<u32>, mover: usize, square: u32, other: Option<usize>) -> (row: Vec<
    u32,
>)
    requires
        mover < positions@.len(),
        match other {
            Some(o) => displaced(squares(positions@), mover as nat, square as nat) == Some(o as nat),
            None => displaced(squares(positions@), mover as nat, square as nat) is None,
        },
    ensures
        row@.len() == positions@.len(),
        squares(row@) == positions_after(squares(positions@), mover as nat, square as nat),
{
    let ghost before = squares(positions@);
    let mut row: Vec<u32> = Vec::new();
    let mut i: usize = 0;
    proof {
        lemma_displaced(before, mover as nat, square as nat);
        if other is Some {
            let first = choose|c: int| sent_home(before, mover as nat, square as nat, c);
            assert(sent_home(before, mover as nat, square as nat, first));
        }
    }
    while i < positions.len()
        invariant
            i <= positions@.len(),
            before == squares(positions@),
            row@.len() == i,
            other matches Some(o) ==> sent_home(before, mover as nat, square as nat, o as int),
            forall|j: int|
                sent_home(before, mover as nat, square as nat, j) ==> other is Some && j
                    == other->0,
            forall|j: int|
                0 <= j < i ==> row@[j] as nat == positions_after(
                    before,
                    mover as nat,
                    square as nat,
                )[j],
        decreases positions@.len() - i,
    {
        let here = if i == mover {
            square
        } else if other == Some(i) {
            0
        } else {
            positions[i]
        };
        row.push(here);
        i = i + 1;
    }
    assert(squares(row@) =~= positions_after(before, mover as nat, square as nat));
    row
}

/// The match that the given parts describe.
pub open spec fn parts_view(positions: Seq<u32>, current_player: usize, winner: Option<usize>)
    -> MatchView {
    MatchView {
        positions: squares(positions),
        current_player: current_player as nat,
        winner: match winner {
            Some(w) => Some(w as nat),
            None => None,
        },
    }
}

/// The state of one match: where the players stand, whose turn it is, and who
/// has won.
pub struct MatchState {
    positions: Vec<u32>,
    current_player: usize,
    winner: Option<usize>,
}

impl View for MatchState {
    type V = MatchView;

    closed spec fn view(&self) -> MatchView {
        MatchView {
            positions: squares(self.positions@),
            current_player: self.current_player as nat,
            winner: match self.winner {
                Some(w) => Some(w as nat),
                None => None,
            },
        }
    }
}

impl MatchState {
    #[verifier::type_invariant]
    spec fn inv(&self) -> bool {
        self@.sound(BOARD_SIZE as nat)
    }

    /// A match of `num_players` players, all at home, the first to move; a
    /// count outside `2..=4` is refused.
    pub fn new(num_players: usize) -> (made: Result<MatchState, ConfigError>)
        ensures
            match made {
                Ok(state) => {
                    &&& MIN_PLAYERS <= num_players <= MAX_PLAYERS
                    &&& state@ == MatchView::start(num_players as nat)
                    &&& state@.sound(BOARD_SIZE as nat)
                },
                Err(error) => error == ConfigError::PlayerCount && !(MIN_PLAYERS <= num_players
                    <= MAX_PLAYERS),
            },
    {
        if num_players < MIN_PLAYERS || num_players > MAX_PLAYERS {
            return Err(ConfigError::PlayerCount);
        }
        let mut positions: Vec<u32> = Vec::new();
        let mut i: usize = 0;
        while i < num_players
            invariant
                i <= num_players,
                positions@.len() == i,
                forall|j: int| 0 <= j < i ==> positions@[j] == 0,
            decreases num_players - i,
        {
            positions.push(0);
            i = i + 1;
        }
        let state = MatchState { positions, current_player: 0, winner: None };
        assert(state@.positions =~= MatchView::start(num_players as nat).positions);
        Ok(state)
    }

    /// A match in a given state, for the board of [`BOARD_SIZE`] squares; or
    /// the first thing that is wrong with that state, as
    /// [`MatchView::fault`] orders them.
    pub fn from_parts(positions: Vec<u32>, current_player: usize, winner: Option<usize>) -> (made:
        Result<MatchState, ConfigError>)
        ensures
            match made {
                Ok(state) => {
                    &&& state@ == parts_view(positions@, current_player, winner)
                    &&& state@.sound(BOARD_SIZE as nat)
                },
                Err(error) => parts_view(positions@, current_player, winner).fault(
                    BOARD_SIZE as nat,
                ) == Some(error),
            },
    {
        let ghost view = parts_view(positions@, current_player, winner);
        let players = positions.len();
        if players < MIN_PLAYERS || players > MAX_PLAYERS {
            return Err(ConfigError::PlayerCount);
        }
        if current_player >= players {
            return Err(ConfigError::PlayerIndex);
        }
        match winner {
            Some(w) => {
                if w >= players {
                    return Err(ConfigError::PlayerIndex);
                }
            },
            None => {},
        }
        let mut on_board = true;
        let mut crowned = true;
        let mut i: usize = 0;
        while i < players
            invariant
                i <= players,
                players == positions@.len(),
                view == parts_view(positions@, current_player, winner),
                on_board == (forall|j: int| 0 <= j < i ==> #[trigger] view.positions[j] <= BOARD_SIZE),
                crowned == (forall|j: int|
                    0 <= j < i ==> (#[trigger] view.positions[j] == BOARD_SIZE <==> view.winner
                        == Some(j as nat))),
            decreases players - i,
        {
            let here = positions[i];
            if here > BOARD_SIZE {
                on_board = false;
            }
            let has_won = match winner {
                Some(w) => w == i,
                None => false,
            };
            if (here == BOARD_SIZE) != has_won {
                crowned = false;
            }
            proof {
                assert(view.positions[i as int] == here);
                assert(has_won == (view.winner == Some(i as nat)));
            }
            i = i + 1;
        }
        if !on_board {
            return Err(ConfigError::SquareOutOfRange);
        }
        if !crowned {
            return Err(ConfigError::WinnerMismatch);
        }
        Ok(MatchState { positions, current_player, winner })
    }

    /// The square of each player, by player index.
    pub fn positions(&self) -> (row: &Vec<u32>)
        ensures
            squares(row@) == self@.positions,
            self@.sound(BOARD_SIZE as nat),
    {
        proof {
            use_type_invariant(self);
        }
        &self.positions
    }

    /// How many players the match has.
    pub fn num_players(&self) -> (count: usize)
        ensures
            count == self@.num_players(),
            self@.sound(BOARD_SIZE as nat),
    {
        proof {
            use_type_invariant(self);
        }
        self.positions.len()
    }

    /// The index of the player whose turn it is.
    pub fn current_player(&self) -> (index: usize)
        ensures
            index == self@.current_player,
            self@.sound(BOARD_SIZE as nat),
    {
        proof {
            use_type_invariant(self);
        }
        self.current_player
    }

    /// The index of the player who has won, once one has.
    pub fn winner(&self) -> (winner: Option<usize>)
        ensures
            match winner {
                Some(w) => self@.winner == Some(w as nat),
                None => self@.winner is None,
            },
            self@.sound(BOARD_SIZE as nat),
    {
        proof {
            use_type_invariant(self);
        }
        self.winner
    }
}

/// Resolves one turn: the current player of `state` has rolled `die`.
///
/// On a match without a winner the state becomes [`turn_result`] and the
/// sentence returned is [`turn_narration`]. A match that has a winner is left
/// as it is and the turn is refused.
pub fn resolve_turn(state: &mut MatchState, board: &BoardConfig, die: u32) -> (outcome: Result<
    String,
    TurnError,
>)
    ensures
        match outcome {
            Ok(narration) => {
                &&& !old(state)@.finished()
                &&& final(state)@ == turn_result(old(state)@, board@, die as nat)
                &&& narration@ == turn_narration(old(state)@, board@, die as nat)
            },
            Err(error) => {
                &&& error == TurnError::MatchFinished
                &&& old(state)@.finished()
                &&& final(state)@ == old(state)@
            },
        },
        final(state)@ == step(old(state)@, board@, die as nat),
        old(state)@.sound(BOARD_SIZE as nat),
        final(state)@.sound(BOARD_SIZE as nat),
{
    proof {
        use_type_invariant(&*state);
    }
    if state.winner.is_some() {
        return Err(TurnError::MatchFinished);
    }
    let mover = state.current_player;
    let from = state.positions[mover];
    let size = board.size();
    let reached: u32 = if from as u64 + die as u64 > size as u64 {
        from
    } else {
        from + die
    };
    let snake = board.snake_at(reached);
    let ladder = board.ladder_at(reached);
    let square: u32 = match snake {
        Some(tail) => tail,
        None => match ladder {
            Some(top) => top,
            None => reached,
        },
    };
    let other = first_other_on(&state.positions, mover, square);
    let player = mover as u64 + 1;
    let narration = if square == size {
        win_text(player)
    } else {
        match other {
            Some(o) => send_home_text(player, die as u64, square as u64, o as u64 + 1),
            None => if snake.is_some() {
                snake_text(player, die as u64, reached as u64, square as u64)
            } else if ladder.is_some() {
                ladder_text(player, die as u64, reached as u64, square as u64)
            } else {
                move_text(player, die as u64, reached as u64)
            },
        }
    };
    let positions = rearranged(&state.positions, mover, square, other);
    let next = if square == size {
        MatchState { positions, current_player: mover, winner: Some(mover) }
    } else {
        let players = positions.len();
        MatchState { positions, current_player: (mover + 1) % players, winner: None }
    };
    *state = next;
    Ok(narration)
}

} // verus!
