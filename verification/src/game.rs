//! A game from the first screen to the last: a board, the match that is played
//! on it once the number of players is chosen, the roll that waits to be
//! played, and the sentence to show.

use crate::board::{BoardConfig, BoardView, ConfigError, square_map, BOARD_SIZE, BOARD_WIDTH};
use crate::dice::{throw_die, DIE_MAX, DIE_MIN};
use crate::engine::{
    resolve_turn, turn_narration, turn_result, MatchState, MatchView, MAX_PLAYERS, MIN_PLAYERS,
};
use crate::grid::{board_grid, grid_of, standing, Cell};
use crate::narration::{roll_message, roll_text, start_message, start_text};
use std::collections::HashMap;
use vstd::prelude::*;

verus! {

/// A game as contracts see it.
pub struct GameView {
    /// The board.
    pub board: BoardView,
    /// The match, once one has been started.
    pub state: Option<MatchView>,
    /// A roll that has been thrown and not yet played.
    pub dice_roll: Option<nat>,
    /// The sentence to show.
    pub status_message: Seq<char>,
}

impl GameView {
    /// A match has been started and has no winner yet.
    pub open spec fn active(self) -> bool {
        self.state matches Some(s) && !s.finished()
    }

    /// The game in which a match of `n` players has just been started.
    pub open spec fn started(self, n: nat) -> GameView {
        GameView {
            board: self.board,
            state: Some(MatchView::start(n)),
            dice_roll: None,
            status_message: start_message(),
        }
    }

    /// Where the players stand; nobody stands anywhere before a match is
    /// started.
    pub open spec fn positions(self) -> Seq<nat> {
        standing(self.state)
    }

    /// What the game shows: the choice of players before a match, the winner
    /// once there is one, the board in between.
    pub open spec fn screen(self) -> Screen {
        match self.state {
            None => Screen::Setup,
            Some(s) => match s.winner {
                Some(w) => Screen::Won(w as usize),
                None => Screen::Playing,
            },
        }
    }

    /// The game after the current player has thrown `roll`: the roll waits
    /// and is announced. Outside an open match a throw changes nothing.
    pub open spec fn recorded(self, roll: nat) -> GameView {
        if self.active() {
            GameView {
                board: self.board,
                state: self.state,
                dice_roll: Some(roll),
                status_message: roll_message(self.state->0.current_player + 1, roll),
            }
        } else {
            self
        }
    }

    /// The game after the waiting roll has been played. Without a waiting
    /// roll, or outside an open match, nothing changes.
    pub open spec fn updated(self) -> GameView {
        if self.active() && self.dice_roll is Some {
            GameView {
                board: self.board,
                state: Some(turn_result(self.state->0, self.board, self.dice_roll->0)),
                dice_roll: None,
                status_message: turn_narration(self.state->0, self.board, self.dice_roll->0),
            }
        } else {
            self
        }
    }
}

/// What the game shows.
#[derive(Debug, Clone, Copy, PartialEq, Eq, Structural)]
pub enum Screen {
    /// The choice of the number of players.
    Setup,
    /// The board, with a match under way.
    Playing,
    /// The announcement of the winner, by player index.
    Won(usize),
}

/// One game of Snakes and Ladders.
pub struct Game {
    board: BoardConfig,
    state: Option<MatchState>,
    dice_roll: Option<u32>,
    status_message: String,
}

impl View for Game {
    type V = GameView;

    closed spec fn view(&self) -> GameView {
        GameView {
            board: self.board@,
            state: match self.state {
                Some(state) => Some(state@),
                None => None,
            },
            dice_roll: match self.dice_roll {
                Some(roll) => Some(roll as nat),
                None => None,
            },
            status_message: self.status_message@,
        }
    }
}

impl Game {
    /// A game on a board with the given snakes (head to tail) and ladders
    /// (bottom to top), with no match started; or the first fault found in
    /// the snakes and ladders.
    pub fn new(snakes: HashMap<u32, u32>, ladders: HashMap<u32, u32>) -> (made: Result<
        Game,
        ConfigError,
    >)
        ensures
            match made {
                Ok(game) => {
                    &&& game@.board.wf()
                    &&& game@ == (GameView {
                        board: BoardView {
                            size: BOARD_SIZE as nat,
                            width: BOARD_WIDTH as nat,
                            snakes: square_map(snakes@),
                            ladders: square_map(ladders@),
                        },
                        state: None,
                        dice_roll: None,
                        status_message: Seq::empty(),
                    })
                },
                Err(error) => (BoardView {
                    size: BOARD_SIZE as nat,
                    width: BOARD_WIDTH as nat,
                    snakes: square_map(snakes@),
                    ladders: square_map(ladders@),
                }).fault() == Some(error),
            },
    {
        match BoardConfig::new(snakes, ladders) {
            Ok(board) => Ok(
                Game { board, state: None, dice_roll: None, status_message: String::new() },
            ),
            Err(error) => Err(error),
        }
    }

    /// Starts a match of `num_players` players, whatever went before. A count
    /// outside `2..=4` is refused and changes nothing.
    pub fn start_game(&mut self, num_players: usize) -> (started: Result<(), ConfigError>)
        ensures
            match started {
                Ok(_) => {
                    &&& MIN_PLAYERS <= num_players <= MAX_PLAYERS
                    &&& final(self)@ == old(self)@.started(num_players as nat)
                },
                Err(error) => {
                    &&& error == ConfigError::PlayerCount
                    &&& !(MIN_PLAYERS <= num_players <= MAX_PLAYERS)
                    &&& final(self)@ == old(self)@
                },
            },
    {
        match MatchState::new(num_players) {
            Ok(state) => {
                self.state = Some(state);
                self.dice_roll = None;
                self.status_message = start_text();
                Ok(())
            },
            Err(error) => Err(error),
        }
    }

    /// Whether a match has been started and has no winner yet.
    pub fn is_active(&self) -> (active: bool)
        ensures
            active == self@.active(),
    {
        match &self.state {
            Some(state) => state.winner().is_none(),
            None => false,
        }
    }

    /// Takes `roll` as the throw of the current player: it waits to be
    /// played and is announced. Outside an open match nothing changes.
    pub fn record_roll(&mut self, roll: u32)
        ensures
            final(self)@ == old(self)@.recorded(roll as nat),
    {
        let player = match &self.state {
            Some(state) => {
                if state.winner().is_some() {
                    return ;
                }
                state.current_player() as u64 + 1
            },
            None => {
                return ;
            },
        };
        self.dice_roll = Some(roll);
        self.status_message = roll_text(player, roll as u64);
    }

    /// Plays the waiting roll: the match takes one turn, the sentence for
    /// that turn is shown, and no roll waits any more. Without a waiting
    /// roll, or outside an open match, nothing changes.
    pub fn update_position(&mut self)
        ensures
            final(self)@ == old(self)@.updated(),
    {
        let die = match self.dice_roll {
            Some(die) => die,
            None => {
                return ;
            },
        };
        match &mut self.state {
            Some(state) => {
                match resolve_turn(state, &self.board, die) {
                    Ok(narration) => {
                        self.status_message = narration;
                        self.dice_roll = None;
                    },
                    Err(_) => {},
                }
            },
            None => {},
        }
    }

    /// Throws the die for the current player and plays the throw. Outside an
    /// open match nothing changes.
    pub fn roll_dice(&mut self)
        ensures
            old(self)@.active() ==> exists|face: nat|
                DIE_MIN <= face <= DIE_MAX && final(self)@ == #[trigger] old(self)@.recorded(
                    face,
                ).updated(),
            !old(self)@.active() ==> final(self)@ == old(self)@,
    {
        if self.is_active() {
            let face = throw_die();
            self.record_roll(face);
            self.update_position();
            assert(self@ == old(self)@.recorded(face as nat).updated());
        }
    }

    /// What the game shows now.
    pub fn screen(&self) -> (screen: Screen)
        ensures
            screen == self@.screen(),
    {
        match &self.state {
            None => Screen::Setup,
            Some(state) => match state.winner() {
                Some(w) => Screen::Won(w),
                None => Screen::Playing,
            },
        }
    }

    /// The board as rows of cells, the top row first: see [`grid_of`].
    pub fn render_board(&self) -> (rows: Vec<Vec<Cell>>)
        ensures
            rows@.len() == self@.board.width,
            forall|r: int| 0 <= r < rows@.len() ==> (#[trigger] rows@[r])@.len() == self@.board.width,
            forall|r: int, c: int|
                0 <= r < self@.board.width && 0 <= c < self@.board.width ==> (
                #[trigger] rows@[r]@[c])@ == grid_of(self@.board, self@.positions())[r][c],
    {
        board_grid(&self.board, self.state.as_ref())
    }

    /// The board.
    pub fn board(&self) -> (board: &BoardConfig)
        ensures
            board@ == self@.board,
    {
        &self.board
    }

    /// The match, once one has been started.
    pub fn state(&self) -> (state: Option<&MatchState>)
        ensures
            match state {
                Some(s) => self@.state == Some(s@),
                None => self@.state is None,
            },
    {
        self.state.as_ref()
    }

    /// Whether a match has been started.
    pub fn game_started(&self) -> (started: bool)
        ensures
            started == self@.state is Some,
    {
        self.state.is_some()
    }

    /// The roll that waits to be played, if one does.
    pub fn dice_roll(&self) -> (roll: Option<u32>)
        ensures
            match roll {
                Some(face) => self@.dice_roll == Some(face as nat),
                None => self@.dice_roll is None,
            },
    {
        self.dice_roll
    }

    /// The sentence to show.
    pub fn status_message(&self) -> (text: &str)
        ensures
            text@ == self@.status_message,
    {
        self.status_message.as_str()
    }
}

} // verus!
