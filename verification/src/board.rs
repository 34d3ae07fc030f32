//! The board: its size, its row width, and where the snakes and ladders are.
//!
//! A [`BoardConfig`] is made once, checked when it is made, and never changed.
//! Contracts speak of it through its view, a [`BoardView`] over mathematical
//! maps of square numbers.

use std::collections::HashMap;
use vstd::prelude::*;

verus! {

broadcast use vstd::std_specs::hash::group_hash_axioms;

/// The number of the winning square.
pub const BOARD_SIZE: u32 = 100;

/// The number of squares in one row of the board.
pub const BOARD_WIDTH: u32 = 10;

/// Why a board or a match was refused.
#[derive(Debug, Clone, Copy, PartialEq, Eq, Structural)]
pub enum ConfigError {
    /// A match needs two, three or four players.
    PlayerCount,
    /// A player index does not name a player of the match.
    PlayerIndex,
    /// A snake or ladder starts or ends outside the squares `1..=size`.
    SquareOutOfRange,
    /// A snake whose tail is not below its head.
    SnakeDirection,
    /// A ladder whose top is not above its bottom.
    LadderDirection,
    /// A square that is both a snake head and a ladder bottom.
    Overlap,
    /// A winner who does not stand on the winning square, or a player who
    /// stands there without having won.
    WinnerMismatch,
}

/// A map of squares as plain numbers.
pub open spec fn square_map(m: Map<u32, u32>) -> Map<nat, nat> {
    Map::new(|k: nat| k <= u32::MAX && m.contains_key(k as u32), |k: nat| m[k as u32] as nat)
}

/// Every key and every value of `m` is one of the squares `1..=size`.
pub open spec fn squares_in_range(m: Map<nat, nat>, size: nat) -> bool {
    forall|k: nat| #[trigger] m.contains_key(k) ==> 1 <= k <= size && 1 <= m[k] <= size
}

/// Every entry of `m` leads to a lower square.
pub open spec fn leads_down(m: Map<nat, nat>) -> bool {
    forall|k: nat| #[trigger] m.contains_key(k) ==> m[k] < k
}

/// Every entry of `m` leads to a higher square.
pub open spec fn leads_up(m: Map<nat, nat>) -> bool {
    forall|k: nat| #[trigger] m.contains_key(k) ==> m[k] > k
}

/// No square is a key of both maps.
pub open spec fn disjoint_keys(a: Map<nat, nat>, b: Map<nat, nat>) -> bool {
    forall|k: nat| !(#[trigger] a.contains_key(k) && b.contains_key(k))
}

/// The snakes of the standard board, head to tail.
pub open spec fn standard_snakes_map() -> Map<u32, u32> {
    Map::<u32, u32>::empty().insert(16, 6).insert(47, 26).insert(49, 11).insert(56, 53).insert(
        62,
        19,
    ).insert(64, 60).insert(87, 24).insert(93, 73).insert(95, 75).insert(98, 78)
}

/// The ladders of the standard board, bottom to top.
pub open spec fn standard_ladders_map() -> Map<u32, u32> {
    Map::<u32, u32>::empty().insert(1, 38).insert(4, 14).insert(9, 31).insert(21, 42).insert(
        28,
        84,
    ).insert(36, 44).insert(51, 67).insert(71, 91).insert(80, 100)
}

/// The snakes of the standard board, head to tail.
pub fn standard_snakes() -> (snakes: HashMap<u32, u32>)
    ensures
        snakes@ == standard_snakes_map(),
{
    let mut snakes: HashMap<u32, u32> = HashMap::new();
    snakes.insert(16, 6);
    snakes.insert(47, 26);
    snakes.insert(49, 11);
    snakes.insert(56, 53);
    snakes.insert(62, 19);
    snakes.insert(64, 60);
    snakes.insert(87, 24);
    snakes.insert(93, 73);
    snakes.insert(95, 75);
    snakes.insert(98, 78);
    snakes
}

/// The ladders of the standard board, bottom to top.
pub fn standard_ladders() -> (ladders: HashMap<u32, u32>)
    ensures
        ladders@ == standard_ladders_map(),
{
    let mut ladders: HashMap<u32, u32> = HashMap::new();
    ladders.insert(1, 38);
    ladders.insert(4, 14);
    ladders.insert(9, 31);
    ladders.insert(21, 42);
    ladders.insert(28, 84);
    ladders.insert(36, 44);
    ladders.insert(51, 67);
    ladders.insert(71, 91);
    ladders.insert(80, 100);
    ladders
}

/// The board as contracts see it.
pub struct BoardView {
    /// The winning square.
    pub size: nat,
    /// Squares per row.
    pub width: nat,
    /// Snake head to snake tail.
    pub snakes: Map<nat, nat>,
    /// Ladder bottom to ladder top.
    pub ladders: Map<nat, nat>,
}

impl BoardView {
    /// The tail of the snake whose head is on `square`, if there is one.
    pub open spec fn snake_at(self, square: nat) -> Option<nat> {
        if self.snakes.contains_key(square) {
            Some(self.snakes[square])
        } else {
            None
        }
    }

    /// The top of the ladder whose bottom is on `square`, if there is one.
    pub open spec fn ladder_at(self, square: nat) -> Option<nat> {
        if self.ladders.contains_key(square) {
            Some(self.ladders[square])
        } else {
            None
        }
    }

    /// Where a player who has moved to `square` comes to rest: at the tail of
    /// a snake that starts there, else at the top of a ladder that starts
    /// there, else on `square` itself.
    pub open spec fn redirect(self, square: nat) -> nat {
        match self.snake_at(square) {
            Some(tail) => tail,
            None => match self.ladder_at(square) {
                Some(top) => top,
                None => square,
            },
        }
    }

    /// The first thing that is wrong with the snakes and ladders, if anything
    /// is: squares off the board come first, then a snake that does not lead
    /// down, then a ladder that does not lead up, then a square with both a
    /// snake and a ladder.
    pub open spec fn fault(self) -> Option<ConfigError> {
        if !squares_in_range(self.snakes, self.size) || !squares_in_range(self.ladders, self.size) {
            Some(ConfigError::SquareOutOfRange)
        } else if !leads_down(self.snakes) {
            Some(ConfigError::SnakeDirection)
        } else if !leads_up(self.ladders) {
            Some(ConfigError::LadderDirection)
        } else if !disjoint_keys(self.snakes, self.ladders) {
            Some(ConfigError::Overlap)
        } else {
            None
        }
    }

    /// A board that a game can be played on.
    pub open spec fn wf(self) -> bool {
        &&& self.size >= 1
        &&& self.width >= 1
        &&& self.fault() is None
    }
}

/// The fixed topology of one game: made once, read by the turn engine.
pub struct BoardConfig {
    size: u32,
    width: u32,
    snakes: HashMap<u32, u32>,
    ladders: HashMap<u32, u32>,
}

impl View for BoardConfig {
    type V = BoardView;

    closed spec fn view(&self) -> BoardView {
        BoardView {
            size: self.size as nat,
            width: self.width as nat,
            snakes: square_map(self.snakes@),
            ladders: square_map(self.ladders@),
        }
    }
}

/// Whether every key and value of `m` lies in `1..=size`.
///
/// A map has no more keys than `len` says, so it is enough to count the keys
/// found among `1..=size` and to compare.
fn all_on_board(m: &HashMap<u32, u32>, size: u32) -> (ok: bool)
    requires
        size < u32::MAX,
    ensures
        ok == squares_in_range(square_map(m@), size as nat),
{
    let ghost on_board = |upto: int| m@.dom().filter(|j: u32| 1 <= j < upto);
    let mut found: usize = 0;
    let mut values_ok = true;
    let mut k: u32 = 1;
    proof {
        assert(on_board(1) =~= Set::<u32>::empty());
    }
    while k <= size
        invariant
            1 <= k <= size + 1,
            size < u32::MAX,
            on_board == |upto: int| m@.dom().filter(|j: u32| 1 <= j < upto),
            on_board(k as int).finite(),
            found == on_board(k as int).len(),
            found < k,
            values_ok == (forall|j: u32| 1 <= j < k && #[trigger] m@.contains_key(j) ==> 1 <= m@[j] <= size),
        decreases size + 1 - k,
    {
        match m.get(&k) {
            Some(v) => {
                proof {
                    assert(on_board(k + 1) =~= on_board(k as int).insert(k));
                }
                found = found + 1;
                if *v < 1 || *v > size {
                    values_ok = false;
                }
            },
            None => {
                proof {
                    assert(on_board(k + 1) =~= on_board(k as int));
                }
            },
        }
        k = k + 1;
    }
    let ok = values_ok && found == m.len();
    proof {
        let inside = on_board(size + 1);
        assert(inside.subset_of(m@.dom()));
        let target = square_map(m@);
        if found == m.len() {
            vstd::set_lib::lemma_subset_equality(inside, m@.dom());
            assert forall|j: u32| #[trigger] m@.contains_key(j) implies 1 <= j <= size by {
                assert(inside.contains(j));
            }
        } else {
            assert(inside.len() != m@.dom().len());
            assert(exists|j: u32| m@.contains_key(j) && !(1 <= j <= size)) by {
                if forall|j: u32| m@.contains_key(j) ==> 1 <= j <= size {
                    assert(inside =~= m@.dom());
                }
            }
            let j = choose|j: u32| m@.contains_key(j) && !(1 <= j <= size);
            assert(target.contains_key(j as nat));
        }
        if ok {
            assert forall|n: nat| #[trigger] target.contains_key(n) implies 1 <= n <= size && 1
                <= target[n] <= size by {
                assert(m@.contains_key(n as u32));
            }
        } else if found == m.len() {
            let j = choose|j: u32| 1 <= j <= size && m@.contains_key(j) && !(1 <= m@[j] <= size);
            assert(target.contains_key(j as nat));
        }
    }
    ok
}

/// Whether every entry of `m` leads to a lower square (`down`) or to a higher
/// one (`!down`), for a map whose keys lie in `1..=size`.
fn all_lead(m: &HashMap<u32, u32>, size: u32, down: bool) -> (ok: bool)
    requires
        size < u32::MAX,
        squares_in_range(square_map(m@), size as nat),
    ensures
        ok == if down {
            leads_down(square_map(m@))
        } else {
            leads_up(square_map(m@))
        },
{
    let ghost target = square_map(m@);
    let mut ok = true;
    let mut k: u32 = 1;
    while k <= size
        invariant
            1 <= k <= size + 1,
            size < u32::MAX,
            target == square_map(m@),
            ok == (forall|j: nat|
                1 <= j < k && #[trigger] target.contains_key(j) ==> if down {
                    target[j] < j
                } else {
                    target[j] > j
                }),
        decreases size + 1 - k,
    {
        match m.get(&k) {
            Some(v) => {
                proof {
                    assert(target.contains_key(k as nat) && target[k as nat] == *v);
                }
                if (down && *v >= k) || (!down && *v <= k) {
                    ok = false;
                }
            },
            None => {
                proof {
                    assert(!target.contains_key(k as nat));
                }
            },
        }
        k = k + 1;
    }
    ok
}

/// Whether no key of `a` is a key of `b`, for a map `a` whose keys lie in
/// `1..=size`.
fn no_shared_key(a: &HashMap<u32, u32>, b: &HashMap<u32, u32>, size: u32) -> (ok: bool)
    requires
        size < u32::MAX,
        squares_in_range(square_map(a@), size as nat),
    ensures
        ok == disjoint_keys(square_map(a@), square_map(b@)),
{
    let ghost left = square_map(a@);
    let ghost right = square_map(b@);
    let mut ok = true;
    let mut k: u32 = 1;
    while k <= size
        invariant
            1 <= k <= size + 1,
            size < u32::MAX,
            left == square_map(a@),
            right == square_map(b@),
            ok == (forall|j: nat|
                1 <= j < k ==> !(#[trigger] left.contains_key(j) && right.contains_key(j))),
        decreases size + 1 - k,
    {
        if a.contains_key(&k) && b.contains_key(&k) {
            proof {
                assert(left.contains_key(k as nat) && right.contains_key(k as nat));
            }
            ok = false;
        } else {
            proof {
                assert(!(left.contains_key(k as nat) && right.contains_key(k as nat)));
            }
        }
        k = k + 1;
    }
    ok
}

/// The standard snakes and ladders make a board without fault.
pub proof fn lemma_standard_board_is_sound()
    ensures
        (BoardView {
            size: BOARD_SIZE as nat,
            width: BOARD_WIDTH as nat,
            snakes: square_map(standard_snakes_map()),
            ladders: square_map(standard_ladders_map()),
        }).wf(),
{
}

impl BoardConfig {
    #[verifier::type_invariant]
    spec fn inv(&self) -> bool {
        &&& self.size == BOARD_SIZE
        &&& self.width == BOARD_WIDTH
        &&& self@.wf()
    }

    /// A board of a hundred squares in rows of ten with the given snakes
    /// (head to tail) and ladders (bottom to top), or the first fault found in
    /// them.
    pub fn new(snakes: HashMap<u32, u32>, ladders: HashMap<u32, u32>) -> (made: Result<
        BoardConfig,
        ConfigError,
    >)
        ensures
            match made {
                Ok(board) => {
                    &&& board@.wf()
                    &&& board@.size == BOARD_SIZE
                    &&& board@.width == BOARD_WIDTH
                    &&& board@.snakes == square_map(snakes@)
                    &&& board@.ladders == square_map(ladders@)
                },
                Err(error) => (BoardView {
                    size: BOARD_SIZE as nat,
                    width: BOARD_WIDTH as nat,
                    snakes: square_map(snakes@),
                    ladders: square_map(ladders@),
                }).fault() == Some(error),
            },
    {
        if !all_on_board(&snakes, BOARD_SIZE) || !all_on_board(&ladders, BOARD_SIZE) {
            return Err(ConfigError::SquareOutOfRange);
        }
        if !all_lead(&snakes, BOARD_SIZE, true) {
            return Err(ConfigError::SnakeDirection);
        }
        if !all_lead(&ladders, BOARD_SIZE, false) {
            return Err(ConfigError::LadderDirection);
        }
        if !no_shared_key(&snakes, &ladders, BOARD_SIZE) {
            return Err(ConfigError::Overlap);
        }
        Ok(BoardConfig { size: BOARD_SIZE, width: BOARD_WIDTH, snakes, ladders })
    }

    /// The standard board.
    pub fn standard() -> (board: BoardConfig)
        ensures
            board@.wf(),
            board@.size == BOARD_SIZE,
            board@.width == BOARD_WIDTH,
            board@.snakes == square_map(standard_snakes_map()),
            board@.ladders == square_map(standard_ladders_map()),
    {
        let snakes = standard_snakes();
        let ladders = standard_ladders();
        proof {
            lemma_standard_board_is_sound();
        }
        match BoardConfig::new(snakes, ladders) {
            Ok(board) => board,
            Err(_) => vstd::pervasive::unreached(),
        }
    }

    /// The winning square.
    pub fn size(&self) -> (size: u32)
        ensures
            size == self@.size,
            size == BOARD_SIZE,
    {
        proof {
            use_type_invariant(self);
        }
        self.size
    }

    /// Squares per row.
    pub fn width(&self) -> (width: u32)
        ensures
            width == self@.width,
            width == BOARD_WIDTH,
    {
        proof {
            use_type_invariant(self);
        }
        self.width
    }

    /// The tail of the snake whose head is on `square`, if there is one.
    pub fn snake_at(&self, square: u32) -> (tail: Option<u32>)
        ensures
            self@.wf(),
            match tail {
                Some(t) => self@.snake_at(square as nat) == Some(t as nat),
                None => self@.snake_at(square as nat) is None,
            },
    {
        proof {
            use_type_invariant(self);
        }
        match self.snakes.get(&square) {
            Some(tail) => Some(*tail),
            None => None,
        }
    }

    /// The top of the ladder whose bottom is on `square`, if there is one.
    pub fn ladder_at(&self, square: u32) -> (top: Option<u32>)
        ensures
            self@.wf(),
            match top {
                Some(t) => self@.ladder_at(square as nat) == Some(t as nat),
                None => self@.ladder_at(square as nat) is None,
            },
    {
        proof {
            use_type_invariant(self);
        }
        match self.ladders.get(&square) {
            Some(top) => Some(*top),
            None => None,
        }
    }
}

} // verus!
