use snake_ladder::board::{standard_ladders, standard_snakes, ConfigError};
use snake_ladder::dice::{throw_die, DIE_MAX, DIE_MIN};
use snake_ladder::{Game, Screen};
use std::collections::HashMap;

fn standard_game() -> Game {
    Game::new(standard_snakes(), standard_ladders()).unwrap()
}

fn positions(game: &Game) -> Vec<u32> {
    game.state().map(|s| s.positions().clone()).unwrap_or_default()
}

#[test]
fn new_game_waits_for_players() {
    let game = standard_game();
    assert_eq!(game.screen(), Screen::Setup);
    assert!(!game.game_started());
    assert!(!game.is_active());
    assert!(game.state().is_none());
    assert_eq!(game.dice_roll(), None);
    assert_eq!(game.status_message(), "");
    assert_eq!(game.board().size(), 100);
    assert_eq!(game.board().snake_at(16), Some(6));
}

#[test]
fn new_game_refuses_a_faulty_board() {
    let snakes: HashMap<u32, u32> = [(5, 10)].into_iter().collect();
    assert_eq!(Game::new(snakes, HashMap::new()).err(), Some(ConfigError::SnakeDirection));
    let ladders: HashMap<u32, u32> = [(500, 600)].into_iter().collect();
    assert_eq!(Game::new(HashMap::new(), ladders).err(), Some(ConfigError::SquareOutOfRange));
    let snakes: HashMap<u32, u32> = [(9, 3)].into_iter().collect();
    let ladders: HashMap<u32, u32> = [(9, 30)].into_iter().collect();
    assert_eq!(Game::new(snakes, ladders).err(), Some(ConfigError::Overlap));
}

#[test]
fn start_game_sets_up_the_match() {
    let mut game = standard_game();
    assert_eq!(game.start_game(3), Ok(()));
    assert_eq!(game.screen(), Screen::Playing);
    assert!(game.game_started());
    assert!(game.is_active());
    assert_eq!(positions(&game), vec![0, 0, 0]);
    assert_eq!(game.state().unwrap().current_player(), 0);
    assert_eq!(game.state().unwrap().winner(), None);
    assert_eq!(game.dice_roll(), None);
    assert_eq!(game.status_message(), "Game started! Player 1's turn.");
}

#[test]
fn start_game_refuses_a_bad_player_count_and_changes_nothing() {
    let mut game = standard_game();
    assert_eq!(game.start_game(1), Err(ConfigError::PlayerCount));
    assert_eq!(game.start_game(5), Err(ConfigError::PlayerCount));
    assert_eq!(game.screen(), Screen::Setup);
    assert_eq!(game.status_message(), "");

    game.start_game(2).unwrap();
    game.record_roll(5);
    game.update_position();
    assert_eq!(game.start_game(7), Err(ConfigError::PlayerCount));
    assert_eq!(positions(&game), vec![5, 0]);
    assert_eq!(game.state().unwrap().current_player(), 1);
    assert_eq!(game.status_message(), "Player 1 rolled 5, and moved to position 5");
}

#[test]
fn record_roll_announces_the_roll() {
    let mut game = standard_game();
    game.start_game(2).unwrap();
    game.record_roll(3);
    assert_eq!(game.dice_roll(), Some(3));
    assert_eq!(game.status_message(), "Player 1 rolled a 3");
    assert_eq!(positions(&game), vec![0, 0]);
    assert_eq!(game.state().unwrap().current_player(), 0);
}

#[test]
fn update_position_plays_the_waiting_roll() {
    let mut game = standard_game();
    game.start_game(2).unwrap();
    game.record_roll(16);
    game.update_position();
    assert_eq!(positions(&game), vec![6, 0]);
    assert_eq!(game.state().unwrap().current_player(), 1);
    assert_eq!(game.dice_roll(), None);
    assert_eq!(
        game.status_message(),
        "Player 1 rolled 16, climbed to 16, but was bitten by a snake and fell to 6!"
    );

    game.record_roll(4);
    assert_eq!(game.status_message(), "Player 2 rolled a 4");
    game.update_position();
    assert_eq!(positions(&game), vec![6, 14]);
    assert_eq!(game.status_message(), "Player 2 rolled 4, climbed a ladder from 4 to 14!");
    assert_eq!(game.state().unwrap().current_player(), 0);
}

#[test]
fn update_position_without_a_roll_changes_nothing() {
    let mut game = standard_game();
    game.update_position();
    assert_eq!(game.screen(), Screen::Setup);
    assert_eq!(game.status_message(), "");

    game.start_game(2).unwrap();
    game.update_position();
    assert_eq!(positions(&game), vec![0, 0]);
    assert_eq!(game.state().unwrap().current_player(), 0);
    assert_eq!(game.status_message(), "Game started! Player 1's turn.");
}

#[test]
fn rolls_before_a_match_change_nothing() {
    let mut game = standard_game();
    game.record_roll(4);
    assert_eq!(game.dice_roll(), None);
    assert_eq!(game.status_message(), "");
    game.roll_dice();
    assert_eq!(game.screen(), Screen::Setup);
    assert_eq!(game.dice_roll(), None);
    assert_eq!(game.status_message(), "");
}

#[test]
fn a_won_game_shows_the_winner_and_stays_as_it_is() {
    let mut game = standard_game();
    game.start_game(2).unwrap();
    game.record_roll(90);
    game.update_position();
    game.record_roll(2);
    game.update_position();
    game.record_roll(10);
    game.update_position();
    assert_eq!(game.screen(), Screen::Won(0));
    assert_eq!(game.status_message(), "Player 1 wins!");
    assert_eq!(positions(&game), vec![100, 2]);
    assert!(!game.is_active());
    assert!(game.game_started());

    game.record_roll(3);
    game.update_position();
    game.roll_dice();
    assert_eq!(game.screen(), Screen::Won(0));
    assert_eq!(game.dice_roll(), None);
    assert_eq!(game.status_message(), "Player 1 wins!");
    assert_eq!(positions(&game), vec![100, 2]);
    assert_eq!(game.state().unwrap().current_player(), 0);
}

#[test]
fn a_new_match_can_follow_a_won_one() {
    let mut game = standard_game();
    game.start_game(2).unwrap();
    game.record_roll(100);
    game.update_position();
    assert_eq!(game.screen(), Screen::Won(0));
    game.start_game(4).unwrap();
    assert_eq!(game.screen(), Screen::Playing);
    assert_eq!(positions(&game), vec![0, 0, 0, 0]);
    assert_eq!(game.status_message(), "Game started! Player 1's turn.");
}

#[test]
fn roll_dice_moves_by_one_of_the_six_faces() {
    let outcomes = [
        (38, "Player 1 rolled 1, climbed a ladder from 1 to 38!"),
        (2, "Player 1 rolled 2, and moved to position 2"),
        (3, "Player 1 rolled 3, and moved to position 3"),
        (14, "Player 1 rolled 4, climbed a ladder from 4 to 14!"),
        (5, "Player 1 rolled 5, and moved to position 5"),
        (6, "Player 1 rolled 6, and moved to position 6"),
    ];
    let mut seen = [false; 6];
    for _ in 0..400 {
        let mut game = standard_game();
        game.start_game(2).unwrap();
        game.roll_dice();
        let row = positions(&game);
        assert_eq!(row[1], 0);
        let face = outcomes.iter().position(|(square, _)| *square == row[0]);
        let face = face.expect("the first player stands where no face leads");
        assert_eq!(game.status_message(), outcomes[face].1);
        assert_eq!(game.state().unwrap().current_player(), 1);
        assert_eq!(game.dice_roll(), None);
        seen[face] = true;
    }
    assert!(seen.iter().filter(|s| **s).count() >= 2);
}

#[test]
fn roll_dice_plays_a_whole_match() {
    let mut game = standard_game();
    game.start_game(4).unwrap();
    let mut turns = 0;
    while game.is_active() {
        let before = game.state().unwrap().current_player();
        game.roll_dice();
        let state = game.state().unwrap();
        for square in state.positions() {
            assert!(*square <= 100);
        }
        match state.winner() {
            Some(w) => {
                assert_eq!(w, before);
                assert_eq!(state.current_player(), before);
                assert_eq!(state.positions()[w], 100);
            }
            None => assert_eq!(state.current_player(), (before + 1) % 4),
        }
        turns += 1;
        assert!(turns < 100_000);
    }
    let winner = game.state().unwrap().winner().unwrap();
    assert_eq!(game.screen(), Screen::Won(winner));
    assert_eq!(game.status_message(), format!("Player {} wins!", winner + 1));
}

#[test]
fn throw_die_shows_every_face_and_no_other() {
    let mut seen = [0usize; 6];
    for _ in 0..6000 {
        let face = throw_die();
        assert!((DIE_MIN..=DIE_MAX).contains(&face));
        seen[(face - 1) as usize] += 1;
    }
    assert_eq!(DIE_MIN, 1);
    assert_eq!(DIE_MAX, 6);
    for count in seen {
        assert!(count > 0);
    }
}
