use snake_ladder::board::BoardConfig;
use snake_ladder::engine::{resolve_turn, MatchState, TurnError};
use std::collections::HashMap;

fn state(positions: &[u32], current: usize) -> MatchState {
    MatchState::from_parts(positions.to_vec(), current, None).unwrap()
}

fn bare_board() -> BoardConfig {
    BoardConfig::new(HashMap::new(), HashMap::new()).unwrap()
}

#[test]
fn snake_sends_first_player_from_sixteen_to_six() {
    let board = BoardConfig::standard();
    let mut s = MatchState::new(2).unwrap();
    let said = resolve_turn(&mut s, &board, 16).unwrap();
    assert_eq!(
        said,
        "Player 1 rolled 16, climbed to 16, but was bitten by a snake and fell to 6!"
    );
    assert_eq!(s.positions(), &vec![6, 0]);
    assert_eq!(s.current_player(), 1);
    assert_eq!(s.winner(), None);
}

#[test]
fn ladder_lifts_player_from_four_to_fourteen() {
    let board = BoardConfig::standard();
    let mut s = state(&[1, 0], 0);
    let said = resolve_turn(&mut s, &board, 3).unwrap();
    assert_eq!(said, "Player 1 rolled 3, climbed a ladder from 4 to 14!");
    assert_eq!(s.positions(), &vec![14, 0]);
    assert_eq!(s.current_player(), 1);
}

#[test]
fn overshoot_leaves_player_in_place() {
    let board = bare_board();
    let mut s = state(&[95, 0], 0);
    let said = resolve_turn(&mut s, &board, 6).unwrap();
    assert_eq!(said, "Player 1 rolled 6, and moved to position 95");
    assert_eq!(s.positions(), &vec![95, 0]);
    assert_eq!(s.current_player(), 1);
    assert_eq!(s.winner(), None);
}

#[test]
fn overshoot_on_standard_board_leaves_player_in_place() {
    let board = BoardConfig::standard();
    let mut s = state(&[96, 0], 0);
    let said = resolve_turn(&mut s, &board, 6).unwrap();
    assert_eq!(said, "Player 1 rolled 6, and moved to position 96");
    assert_eq!(s.positions(), &vec![96, 0]);
}

#[test]
fn overshoot_on_a_snake_head_still_meets_the_snake() {
    let board = BoardConfig::standard();
    let mut s = state(&[95, 0], 0);
    let said = resolve_turn(&mut s, &board, 6).unwrap();
    assert_eq!(
        said,
        "Player 1 rolled 6, climbed to 95, but was bitten by a snake and fell to 75!"
    );
    assert_eq!(s.positions(), &vec![75, 0]);
}

#[test]
fn landing_on_another_player_sends_that_player_home() {
    let board = BoardConfig::standard();
    let mut s = state(&[38, 0], 1);
    let said = resolve_turn(&mut s, &board, 38).unwrap();
    assert_eq!(
        said,
        "Oops! Player 2 rolled 38 and moved to position 38 and sent Player 1 back to home base!"
    );
    assert_eq!(s.positions(), &vec![0, 38]);
    assert_eq!(s.current_player(), 0);
}

#[test]
fn collision_after_a_ladder_names_the_square_reached() {
    let board = BoardConfig::standard();
    let mut s = MatchState::new(2).unwrap();
    resolve_turn(&mut s, &board, 1).unwrap();
    assert_eq!(s.positions(), &vec![38, 0]);
    let said = resolve_turn(&mut s, &board, 1).unwrap();
    assert_eq!(
        said,
        "Oops! Player 2 rolled 1 and moved to position 38 and sent Player 1 back to home base!"
    );
    assert_eq!(s.positions(), &vec![0, 38]);
}

#[test]
fn exact_roll_wins_and_the_match_is_over() {
    let board = BoardConfig::standard();
    let mut s = state(&[90, 12], 0);
    let said = resolve_turn(&mut s, &board, 10).unwrap();
    assert_eq!(said, "Player 1 wins!");
    assert_eq!(s.positions(), &vec![100, 12]);
    assert_eq!(s.winner(), Some(0));
    assert_eq!(s.current_player(), 0);

    assert_eq!(resolve_turn(&mut s, &board, 3), Err(TurnError::MatchFinished));
    assert_eq!(resolve_turn(&mut s, &board, 6), Err(TurnError::MatchFinished));
    assert_eq!(s.positions(), &vec![100, 12]);
    assert_eq!(s.winner(), Some(0));
    assert_eq!(s.current_player(), 0);
}

#[test]
fn second_player_can_win() {
    let board = BoardConfig::standard();
    let mut s = state(&[3, 94], 1);
    let said = resolve_turn(&mut s, &board, 6).unwrap();
    assert_eq!(said, "Player 2 wins!");
    assert_eq!(s.winner(), Some(1));
    assert_eq!(s.current_player(), 1);
}

#[test]
fn ladder_to_the_last_square_wins() {
    let board = BoardConfig::standard();
    let mut s = state(&[78, 0], 0);
    let said = resolve_turn(&mut s, &board, 2).unwrap();
    assert_eq!(said, "Player 1 wins!");
    assert_eq!(s.positions(), &vec![100, 0]);
    assert_eq!(s.winner(), Some(0));
}

#[test]
fn plain_move_reports_the_square() {
    let board = BoardConfig::standard();
    let mut s = MatchState::new(3).unwrap();
    let said = resolve_turn(&mut s, &board, 5).unwrap();
    assert_eq!(said, "Player 1 rolled 5, and moved to position 5");
    assert_eq!(s.positions(), &vec![5, 0, 0]);
    assert_eq!(s.current_player(), 1);
}

#[test]
fn every_standard_snake_leads_to_its_tail() {
    let board = BoardConfig::standard();
    let snakes = [
        (16, 6),
        (47, 26),
        (49, 11),
        (56, 53),
        (62, 19),
        (64, 60),
        (87, 24),
        (93, 73),
        (95, 75),
        (98, 78),
    ];
    for (head, tail) in snakes {
        let mut s = state(&[head - 2, 0], 0);
        resolve_turn(&mut s, &board, 2).unwrap();
        assert_eq!(s.positions()[0], tail);
        assert_ne!(s.positions()[0], head);
    }
}

#[test]
fn every_standard_ladder_leads_to_its_top() {
    let board = BoardConfig::standard();
    let ladders = [
        (1, 38),
        (4, 14),
        (9, 31),
        (21, 42),
        (28, 84),
        (36, 44),
        (51, 67),
        (71, 91),
        (80, 100),
    ];
    for (bottom, top) in ladders {
        let mut s = state(&[bottom - 1, 0], 0);
        resolve_turn(&mut s, &board, 1).unwrap();
        assert_eq!(s.positions()[0], top);
    }
}

#[test]
fn overshoot_never_advances() {
    let board = bare_board();
    for from in 95..=99u32 {
        for die in 1..=6u32 {
            if from + die > 100 {
                let mut s = state(&[from, 0], 0);
                resolve_turn(&mut s, &board, die).unwrap();
                assert_eq!(s.positions()[0], from);
            }
        }
    }
}

#[test]
fn every_exact_roll_wins() {
    let board = BoardConfig::standard();
    for die in 1..=6u32 {
        let from = 100 - die;
        if from == 95 || from == 98 {
            continue;
        }
        let mut s = state(&[0, 0, from], 2);
        resolve_turn(&mut s, &board, die).unwrap();
        assert_eq!(s.winner(), Some(2));
        assert_eq!(s.current_player(), 2);
        assert_eq!(s.positions()[2], 100);
    }
}

#[test]
fn lone_collision_resets_only_that_player() {
    let board = BoardConfig::standard();
    let mut s = MatchState::from_parts(vec![10, 22, 7, 20], 3, None).unwrap();
    let said = resolve_turn(&mut s, &board, 2).unwrap();
    assert_eq!(
        said,
        "Oops! Player 4 rolled 2 and moved to position 22 and sent Player 2 back to home base!"
    );
    assert_eq!(s.positions(), &vec![10, 0, 7, 22]);
    assert_eq!(s.current_player(), 0);
}

#[test]
fn only_the_first_of_two_colliding_players_goes_home() {
    let board = BoardConfig::standard();
    let mut s = MatchState::from_parts(vec![22, 20, 22], 1, None).unwrap();
    let said = resolve_turn(&mut s, &board, 2).unwrap();
    assert_eq!(
        said,
        "Oops! Player 2 rolled 2 and moved to position 22 and sent Player 1 back to home base!"
    );
    assert_eq!(s.positions(), &vec![0, 22, 22]);
}

#[test]
fn the_mover_does_not_collide_with_itself() {
    let board = bare_board();
    let mut s = state(&[99, 3], 0);
    let said = resolve_turn(&mut s, &board, 5).unwrap();
    assert_eq!(said, "Player 1 rolled 5, and moved to position 99");
    assert_eq!(s.positions(), &vec![99, 3]);
}

#[test]
fn overshoot_onto_own_square_still_sends_a_neighbour_home() {
    let board = bare_board();
    let mut s = state(&[97, 97], 1);
    let said = resolve_turn(&mut s, &board, 6).unwrap();
    assert_eq!(
        said,
        "Oops! Player 2 rolled 6 and moved to position 97 and sent Player 1 back to home base!"
    );
    assert_eq!(s.positions(), &vec![0, 97]);
}

#[test]
fn nobody_is_sent_home_from_the_winning_square() {
    let board = BoardConfig::standard();
    let mut s = state(&[97, 97, 12], 1);
    let said = resolve_turn(&mut s, &board, 3).unwrap();
    assert_eq!(said, "Player 2 wins!");
    assert_eq!(s.positions(), &vec![97, 100, 12]);
    assert_eq!(s.winner(), Some(1));
    assert_eq!(s.current_player(), 1);
}

#[test]
fn turns_go_round_the_players() {
    let board = bare_board();
    let mut s = MatchState::new(3).unwrap();
    let mut expected = 0;
    for _ in 0..10 {
        assert_eq!(s.current_player(), expected);
        resolve_turn(&mut s, &board, 3 - expected as u32).unwrap();
        expected = (expected + 1) % 3;
    }
    assert_eq!(s.current_player(), 1);
    assert_eq!(s.positions(), &vec![12, 6, 3]);
}

#[test]
fn turns_go_round_four_players() {
    let board = bare_board();
    let mut s = MatchState::new(4).unwrap();
    let mut order = Vec::new();
    for die in [1, 2, 3, 4, 5, 6, 1, 2, 3] {
        order.push(s.current_player());
        resolve_turn(&mut s, &board, die).unwrap();
    }
    assert_eq!(order, vec![0, 1, 2, 3, 0, 1, 2, 3, 0]);
}

#[test]
fn a_finished_match_never_changes() {
    let board = BoardConfig::standard();
    let mut s = MatchState::from_parts(vec![100, 40, 3], 0, Some(0)).unwrap();
    for die in 0..20u32 {
        assert_eq!(resolve_turn(&mut s, &board, die), Err(TurnError::MatchFinished));
        assert_eq!(s.positions(), &vec![100, 40, 3]);
        assert_eq!(s.current_player(), 0);
        assert_eq!(s.winner(), Some(0));
    }
}

#[test]
fn a_large_die_cannot_overflow() {
    let board = BoardConfig::standard();
    let mut s = state(&[50, 0], 0);
    let said = resolve_turn(&mut s, &board, u32::MAX).unwrap();
    assert_eq!(said, "Player 1 rolled 4294967295, and moved to position 50");
    assert_eq!(s.positions(), &vec![50, 0]);
}

#[test]
fn new_match_starts_at_home() {
    for n in 2..=4usize {
        let s = MatchState::new(n).unwrap();
        assert_eq!(s.num_players(), n);
        assert_eq!(s.positions(), &vec![0u32; n]);
        assert_eq!(s.current_player(), 0);
        assert_eq!(s.winner(), None);
    }
}
