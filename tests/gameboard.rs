use royal_ur::{Gameboard, MoveOutcome, Player};

fn empty_track() -> [i8; 16] {
    [0; 16]
}

fn total(t: &[i8; 16]) -> i32 {
    t.iter().map(|&c| c as i32).sum()
}

fn draws_for(n: usize) -> [bool; 4] {
    let mut d = [false; 4];
    for j in 0..n {
        d[j] = true;
    }
    d
}

#[test]
fn new_game_starts_with_all_checkers_in_reserve() {
    let g = Gameboard::new();
    assert_eq!(g.player_1, [7, 0, 0, 0, 0, 0, 0, 0, 0, 0, 0, 0, 0, 0, 0, 0]);
    assert_eq!(g.player_2, [7, 0, 0, 0, 0, 0, 0, 0, 0, 0, 0, 0, 0, 0, 0, 0]);
    assert_eq!(g.active_player, Player::First);
    assert_eq!(g.dice_roll, None);
    assert!(!g.is_finished());
}

#[test]
fn fresh_game_roll_three_moves_out_of_reserve() {
    let mut g = Gameboard::new();
    g.roll_with(draws_for(3));
    assert_eq!(g.dice_roll, Some(3));
    assert_eq!(g._move(0), MoveOutcome::Moved);
    assert_eq!(g.player_1[0], 6);
    assert_eq!(g.player_1[3], 1);
    assert_eq!(g.active_player, Player::Second);
    assert_eq!(g.dice_roll, None);
    assert_eq!(g.player_2, [7, 0, 0, 0, 0, 0, 0, 0, 0, 0, 0, 0, 0, 0, 0, 0]);
}

#[test]
fn landing_on_lone_opponent_in_shared_lane_captures() {
    let mut g = Gameboard::new();
    g.player_1 = empty_track();
    g.player_1[0] = 6;
    g.player_1[7] = 1;
    g.player_2 = empty_track();
    g.player_2[0] = 6;
    g.player_2[9] = 1;
    g.roll_with(draws_for(2));
    assert_eq!(g._move(7), MoveOutcome::Captured);
    assert_eq!(g.player_2[9], 0);
    assert_eq!(g.player_2[0], 7);
    assert_eq!(g.player_1[7], 0);
    assert_eq!(g.player_1[9], 1);
    assert_eq!(total(&g.player_1), 7);
    assert_eq!(total(&g.player_2), 7);
    assert_eq!(g.active_player, Player::Second);
}

#[test]
fn no_capture_on_two_opposing_checkers() {
    let mut g = Gameboard::new();
    g.player_1 = empty_track();
    g.player_1[0] = 6;
    g.player_1[7] = 1;
    g.player_2 = empty_track();
    g.player_2[0] = 5;
    g.player_2[9] = 2;
    g.roll_with(draws_for(2));
    assert_eq!(g._move(7), MoveOutcome::Moved);
    assert_eq!(g.player_2[9], 2);
    assert_eq!(g.player_2[0], 5);
    assert_eq!(g.player_1[9], 1);
}

#[test]
fn no_capture_in_private_lane() {
    let mut g = Gameboard::new();
    g.player_2 = empty_track();
    g.player_2[0] = 6;
    g.player_2[3] = 1;
    g.roll_with(draws_for(3));
    assert_eq!(g._move(0), MoveOutcome::Moved);
    assert_eq!(g.player_2[3], 1);
    assert_eq!(g.player_2[0], 6);
    assert_eq!(g.player_1[3], 1);
}

#[test]
fn landing_home_stacks_onto_existing_checkers() {
    let mut g = Gameboard::new();
    g.player_1 = empty_track();
    g.player_1[0] = 3;
    g.player_1[13] = 1;
    g.player_1[15] = 3;
    g.roll_with(draws_for(2));
    assert_eq!(g._move(13), MoveOutcome::Moved);
    assert_eq!(g.player_1[15], 4);
    assert_eq!(g.player_1[13], 0);
    assert_eq!(g.player_2, [7, 0, 0, 0, 0, 0, 0, 0, 0, 0, 0, 0, 0, 0, 0, 0]);
}

#[test]
fn landing_home_with_one_checker_there_succeeds() {
    let mut g = Gameboard::new();
    g.player_1 = empty_track();
    g.player_1[0] = 5;
    g.player_1[14] = 1;
    g.player_1[15] = 1;
    g.roll_with(draws_for(1));
    assert_eq!(g._move(14), MoveOutcome::Moved);
    assert_eq!(g.player_1[15], 2);
}

#[test]
fn zero_roll_blocks_every_move_until_pass() {
    let mut g = Gameboard::new();
    g.roll_with(draws_for(0));
    assert_eq!(g.dice_roll, Some(0));
    for i in 0..20usize {
        let before_1 = g.player_1;
        let before_2 = g.player_2;
        assert_eq!(g._move(i), MoveOutcome::RollExhausted);
        assert_eq!(g.player_1, before_1);
        assert_eq!(g.player_2, before_2);
        assert_eq!(g.active_player, Player::First);
        assert_eq!(g.dice_roll, Some(0));
    }
    g.pass_turn();
    assert_eq!(g.active_player, Player::Second);
    assert_eq!(g.dice_roll, None);
}

#[test]
fn move_without_roll_is_rejected() {
    let mut g = Gameboard::new();
    assert_eq!(g._move(0), MoveOutcome::RollExhausted);
    assert_eq!(g.player_1[0], 7);
    assert_eq!(g.active_player, Player::First);
}

#[test]
fn move_past_the_end_is_rejected() {
    let mut g = Gameboard::new();
    g.player_1 = empty_track();
    g.player_1[0] = 6;
    g.player_1[14] = 1;
    g.roll_with(draws_for(2));
    assert_eq!(g._move(14), MoveOutcome::OutOfBounds);
    assert_eq!(g.player_1[14], 1);
    assert_eq!(g.dice_roll, Some(2));
    assert_eq!(g._move(400), MoveOutcome::OutOfBounds);
    assert_eq!(g.active_player, Player::First);
}

#[test]
fn move_from_empty_cell_is_rejected() {
    let mut g = Gameboard::new();
    g.roll_with(draws_for(1));
    assert_eq!(g._move(4), MoveOutcome::NoSourceChecker);
    assert_eq!(g.player_1[0], 7);
    assert_eq!(g.active_player, Player::First);
}

#[test]
fn move_onto_own_lone_checker_is_rejected() {
    let mut g = Gameboard::new();
    g.player_1 = empty_track();
    g.player_1[0] = 6;
    g.player_1[2] = 1;
    g.roll_with(draws_for(2));
    assert_eq!(g._move(0), MoveOutcome::InvalidDestination);
    assert_eq!(g.player_1[0], 6);
    assert_eq!(g.player_1[2], 1);
    assert_eq!(g.dice_roll, Some(2));
}

#[test]
fn pass_turn_clears_roll_and_flips_player() {
    let mut g = Gameboard::new();
    g.pass_turn();
    assert_eq!(g.active_player, Player::Second);
    assert_eq!(g.dice_roll, None);
    g.roll_with(draws_for(4));
    g.pass_turn();
    assert_eq!(g.active_player, Player::First);
    assert_eq!(g.dice_roll, None);
    assert_eq!(g.player_1[0], 7);
}

#[test]
fn finished_only_when_a_home_holds_seven() {
    let mut g = Gameboard::new();
    assert!(!g.is_finished());
    g.player_2 = empty_track();
    g.player_2[15] = 7;
    assert!(g.is_finished());
    g.player_2[15] = 6;
    g.player_2[14] = 1;
    assert!(!g.is_finished());
    g.player_1 = empty_track();
    g.player_1[15] = 7;
    assert!(g.is_finished());
}

#[test]
fn grid_cells_map_to_first_player_path() {
    let g = Gameboard::new();
    let private = [4usize, 3, 2, 1, 0, 15, 14, 13];
    for col in 0..8i8 {
        assert_eq!(g.get_active_cell(0, col), Some(private[col as usize]));
        assert_eq!(g.get_active_cell(1, col), Some(5 + col as usize));
        assert_eq!(g.get_active_cell(2, col), None);
    }
    assert_eq!(g.get_active_cell(0, 8), None);
    assert_eq!(g.get_active_cell(1, -1), None);
    assert_eq!(g.get_active_cell(3, 0), None);
    assert_eq!(g.get_active_cell(0, 9), None);
}

#[test]
fn grid_cells_map_to_second_player_path() {
    let mut g = Gameboard::new();
    g.pass_turn();
    let private = [4usize, 3, 2, 1, 0, 15, 14, 13];
    for col in 0..8i8 {
        assert_eq!(g.get_active_cell(2, col), Some(private[col as usize]));
        assert_eq!(g.get_active_cell(1, col), Some(5 + col as usize));
        assert_eq!(g.get_active_cell(0, col), None);
    }
}

#[test]
fn path_tables_invert_grid_tables() {
    let g = Gameboard::new();
    assert_eq!(g.grid_to_path_1.len(), 16);
    assert_eq!(g.grid_to_path_2.len(), 16);
    assert_eq!(g.path_to_grid_1.len(), 16);
    assert_eq!(g.path_to_grid_2.len(), 16);
    for (k, v) in g.grid_to_path_1.iter() {
        assert_eq!(g.path_to_grid_1[v], (k / 8, k % 8));
    }
    for (k, v) in g.grid_to_path_2.iter() {
        assert_eq!(g.path_to_grid_2[v], (k / 8, k % 8));
    }
    assert_eq!(g.path_to_grid_1[&15], (0, 5));
    assert_eq!(g.path_to_grid_2[&13], (2, 7));
    assert_eq!(g.path_to_grid_1[&9], (1, 4));
    assert_eq!(g.path_to_grid_2[&9], (1, 4));
}

#[test]
fn roll_with_counts_ones() {
    let mut g = Gameboard::new();
    g.roll_with([true, false, true, false]);
    assert_eq!(g.dice_roll, Some(2));
    g.roll_with([false, false, false, true]);
    assert_eq!(g.dice_roll, Some(1));
    g.roll_with([true, true, true, true]);
    assert_eq!(g.dice_roll, Some(4));
}

#[test]
fn dice_distribution_approximates_binomial() {
    let mut g = Gameboard::new();
    let trials = 16000;
    let mut counts = [0u32; 5];
    for _ in 0..trials {
        g.roll();
        let v = g.dice_roll.expect("a roll is pending");
        assert!((0..=4).contains(&v));
        counts[v as usize] += 1;
    }
    let weights = [1.0f64, 4.0, 6.0, 4.0, 1.0];
    for v in 0..5 {
        let expected = weights[v] / 16.0;
        let observed = counts[v] as f64 / trials as f64;
        assert!((observed - expected).abs() < 0.02, "value {} seen {}", v, observed);
    }
}

#[test]
fn checkers_are_conserved_over_a_long_game() {
    let mut g = Gameboard::new();
    for turn in 0..2000usize {
        g.roll();
        let mut moved = false;
        for i in 0..16usize {
            let src = (i + turn) % 16;
            if g._move(src) == MoveOutcome::Moved || g.dice_roll.is_none() {
                moved = true;
                break;
            }
        }
        if !moved {
            g.pass_turn();
        }
        assert_eq!(total(&g.player_1), 7);
        assert_eq!(total(&g.player_2), 7);
        assert!(g.player_1.iter().all(|&c| c >= 0));
        assert!(g.player_2.iter().all(|&c| c >= 0));
        if g.is_finished() {
            break;
        }
    }
}
