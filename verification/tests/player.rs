use std::collections::HashSet;
use tetris::bag::draw_sequence;
use tetris::board::Board;
use tetris::event::{handle_game_event, key_map, InputAction, Key};
use tetris::player::{
    landing, lifting, Effects, Message, Player, PlayerKind, FIELD_CEILING, LOCK_RESET_LIMIT,
};
use tetris::score::{ClearKind, Score};
use tetris::tetromino::{
    CardinalDirection, Color, Geometry, RotationDirection, ShiftDirection, Tetromino,
    TetrominoVariant,
};

const NOTHING: Effects = Effects { message: None, lock_delay: false, line_clear_delay: false };

/// A local player whose falling piece is `variant` at its start position.
fn player_with(variant: TetrominoVariant) -> Player {
    let mut player = Player::new(PlayerKind::Local, 1, 3);
    player.falling = Tetromino::new(variant);
    player.falling.start_pos_transform(&player.board);
    player.update_ghost();
    player
}

/// The O piece lying on the floor in the columns 4 and 5.
fn square_on_the_floor() -> Tetromino {
    let mut piece = Tetromino::new(TetrominoVariant::O);
    piece.geometry.transform(3, 0);
    piece
}

/// The I piece standing on the floor in column 9.
fn line_in_the_last_column() -> Tetromino {
    Tetromino {
        geometry: Geometry {
            shape: [(9, 3), (9, 2), (9, 1), (9, 0)],
            center: (9, 2),
            direction: CardinalDirection::East,
        },
        color: Color::Cyan,
        variant: TetrominoVariant::I,
    }
}

fn fill_row_but(board: &mut Board, y: usize, hole: usize) {
    for x in 0..10 {
        if x != hole {
            board.0[y][x] = Some(Color::White);
        }
    }
}

#[test]
fn a_new_player_starts_with_the_first_piece_of_the_seed() {
    let player = Player::new(PlayerKind::Remote, 6, 77);
    let dealt = draw_sequence(77, 4);
    let mut first = Tetromino::new(dealt[0]);
    first.start_pos_transform(&Board::new());
    assert_eq!(player.kind, PlayerKind::Remote);
    assert_eq!(player.falling, first);
    assert_eq!(player.bag.next, dealt[1..4].to_vec());
    assert_eq!(player.bag.rest.len(), 3);
    assert_eq!(player.holding, None);
    assert_eq!(player.ghost_piece, None);
    assert_eq!(player.board.0, Board::new().0);
    assert_eq!(player.score, Score::new(6));
    assert!(player.clearing.is_empty());
    assert!(player.can_hold);
    assert!(!player.lost);
    assert!(!player.locking);
    assert_eq!(player.lock_reset_count, 0);
    assert!(!player.last_action_was_rotate);
    assert!(!player.t_spin);
    assert!(!player.idle());
}

#[test]
fn the_limits_of_the_lock_and_the_field() {
    assert_eq!(LOCK_RESET_LIMIT, 15);
    assert_eq!(FIELD_CEILING, 24);
}

#[test]
fn update_ghost_previews_the_landing() {
    let mut player = player_with(TetrominoVariant::I);
    let ghost = player.ghost_piece.unwrap();
    assert_eq!(ghost.geometry.shape, [(3, 0), (4, 0), (5, 0), (6, 0)]);
    assert_eq!(ghost.geometry.center, (4, 0));
    assert_eq!(ghost.variant, TetrominoVariant::I);
    player.board.0[4][5] = Some(Color::Blue);
    player.update_ghost();
    assert_eq!(player.ghost_piece.unwrap().geometry.shape, [(3, 5), (4, 5), (5, 5), (6, 5)]);
}

#[test]
fn there_is_no_ghost_where_the_piece_lands_above_the_top_row() {
    let mut player = player_with(TetrominoVariant::I);
    for y in 0..20 {
        player.board.0[y][4] = Some(Color::Blue);
    }
    player.falling.geometry.transform(0, 3);
    player.update_ghost();
    assert_eq!(player.ghost_piece, None);
}

#[test]
fn landing_counts_the_rows() {
    let board = Board::new();
    let mut piece = Tetromino::new(TetrominoVariant::T);
    piece.start_pos_transform(&board);
    let (landed, rows) = landing(&board, piece);
    assert_eq!(rows, 18);
    assert_eq!(landed.geometry.shape, [(4, 0), (5, 0), (5, 1), (6, 0)]);
    assert_eq!(landing(&board, landed), (landed, 0));
}

#[test]
fn lifting_moves_a_piece_off_filled_cells() {
    let mut board = Board::new();
    for y in 0..3 {
        fill_row_but(&mut board, y, 0);
    }
    let lifted = lifting(&board, square_on_the_floor());
    assert_eq!(lifted.geometry.shape, [(4, 3), (4, 4), (5, 3), (5, 4)]);
    assert_eq!(lifted.geometry.center, (4, 3));
    assert_eq!(lifting(&Board::new(), square_on_the_floor()), square_on_the_floor());
}

#[test]
fn drop_moves_the_piece_one_row_down() {
    let mut player = player_with(TetrominoVariant::I);
    player.lock_reset_count = 9;
    let effects = player.drop();
    assert_eq!(effects, Effects { message: None, lock_delay: true, line_clear_delay: false });
    assert_eq!(player.falling.geometry.shape, [(3, 18), (4, 18), (5, 18), (6, 18)]);
    assert_eq!(player.lock_reset_count, 0);
    assert!(!player.locking);
}

#[test]
fn drop_notes_that_the_piece_rests() {
    let mut player = player_with(TetrominoVariant::O);
    player.falling = square_on_the_floor();
    player.falling.geometry.transform(0, 1);
    player.lock_reset_count = 4;
    let effects = player.drop();
    assert!(effects.lock_delay);
    assert!(player.locking);
    assert_eq!(player.falling, square_on_the_floor());
    // A piece that rests stays, and the count of resets with it.
    player.lock_reset_count = 4;
    let effects = player.drop();
    assert_eq!(effects, NOTHING);
    assert!(player.locking);
    assert_eq!(player.falling, square_on_the_floor());
    assert_eq!(player.lock_reset_count, 4);
}

#[test]
fn shift_moves_and_tells_the_peer() {
    let mut player = player_with(TetrominoVariant::T);
    player.last_action_was_rotate = true;
    let effects = player.shift(ShiftDirection::Left);
    assert_eq!(player.falling.geometry.shape, [(3, 18), (4, 18), (4, 19), (5, 18)]);
    assert_eq!(
        effects,
        Effects {
            message: Some(Message::Pos(player.falling.geometry)),
            lock_delay: true,
            line_clear_delay: false
        }
    );
    assert_eq!(player.lock_reset_count, 1);
    assert!(!player.last_action_was_rotate);
    assert!(!player.locking);
    assert_eq!(player.ghost_piece.unwrap().geometry.shape, [(3, 0), (4, 0), (4, 1), (5, 0)]);
}

#[test]
fn a_move_notes_whether_the_piece_rests() {
    // A ledge in the columns 0 to 2 at the height of the piece.
    let mut player = player_with(TetrominoVariant::O);
    for x in 0..3 {
        player.board.0[0][x] = Some(Color::White);
    }
    let mut piece = square_on_the_floor();
    piece.geometry.transform(-1, 1);
    player.falling = piece;
    assert!(!player.board.hitting_bottom(&player.falling));
    // One column to the left the piece stands on the ledge.
    player.shift(ShiftDirection::Left);
    assert!(player.locking);
    player.shift(ShiftDirection::Right);
    assert!(!player.locking);
    let mut player = player_with(TetrominoVariant::T);
    player.falling.geometry.transform(0, -17);
    player.rotate(RotationDirection::Clockwise);
    assert!(player.locking);
}

#[test]
fn a_blocked_shift_has_no_effect() {
    let mut player = player_with(TetrominoVariant::T);
    player.falling.geometry.transform(-4, 0);
    player.last_action_was_rotate = true;
    let before = player.falling;
    assert_eq!(player.shift(ShiftDirection::Left), NOTHING);
    assert_eq!(player.falling, before);
    assert_eq!(player.lock_reset_count, 0);
    assert!(player.last_action_was_rotate);
}

#[test]
fn only_a_local_player_tells_the_peer() {
    for kind in [PlayerKind::Remote, PlayerKind::Computer] {
        let mut player = player_with(TetrominoVariant::T);
        player.kind = kind;
        let effects = player.shift(ShiftDirection::Right);
        assert_eq!(effects.message, None);
        assert!(effects.lock_delay);
        let effects = player.rotate(RotationDirection::Clockwise);
        assert_eq!(effects.message, None);
        let effects = player.hold();
        assert_eq!(effects.message, None);
        let effects = player.hard_drop();
        assert_eq!(effects.message, None);
    }
}

#[test]
fn rotate_turns_and_sets_the_flag() {
    let mut player = player_with(TetrominoVariant::T);
    let effects = player.rotate(RotationDirection::Clockwise);
    assert_eq!(player.falling.geometry.direction, CardinalDirection::East);
    assert_eq!(player.falling.geometry.shape, [(5, 19), (5, 18), (6, 18), (5, 17)]);
    assert_eq!(
        effects,
        Effects {
            message: Some(Message::Pos(player.falling.geometry)),
            lock_delay: true,
            line_clear_delay: false
        }
    );
    assert!(player.last_action_was_rotate);
    assert_eq!(player.lock_reset_count, 1);
    let effects = player.rotate(RotationDirection::CounterClockwise);
    assert_eq!(player.falling.geometry.direction, CardinalDirection::North);
    assert!(effects.lock_delay);
    assert_eq!(player.lock_reset_count, 2);
}

#[test]
fn sixteen_shifts_of_a_resting_piece_commit_it() {
    let mut player = player_with(TetrominoVariant::O);
    player.falling = square_on_the_floor();
    let upcoming = player.bag.next[0];
    for shift in 1..=15u8 {
        let direction = if shift % 2 == 1 { ShiftDirection::Left } else { ShiftDirection::Right };
        let effects = player.shift(direction);
        assert_eq!(player.lock_reset_count, shift);
        // Fourteen shifts put the lock off; the fifteenth does not any more.
        assert_eq!(effects.lock_delay, shift < 15);
        assert_eq!(effects.message, Some(Message::Pos(player.falling.geometry)));
        assert_eq!(player.board.0, Board::new().0);
        assert_eq!(player.falling.variant, TetrominoVariant::O);
    }
    let resting = player.falling;
    assert_eq!(resting.geometry.shape, [(3, 0), (3, 1), (4, 0), (4, 1)]);
    let effects = player.shift(ShiftDirection::Right);
    assert_eq!(
        effects,
        Effects {
            message: Some(Message::Place(resting.geometry)),
            lock_delay: false,
            line_clear_delay: false
        }
    );
    for (x, y) in [(3usize, 0usize), (3, 1), (4, 0), (4, 1)] {
        assert_eq!(player.board.0[y][x], Some(Color::Yellow));
    }
    assert_eq!(player.board.0.iter().flatten().filter(|cell| cell.is_some()).count(), 4);
    assert_eq!(player.falling.variant, upcoming);
    let mut next = Tetromino::new(upcoming);
    next.start_pos_transform(&player.board);
    assert_eq!(player.falling, next);
}

#[test]
fn a_turn_at_the_limit_commits_the_piece() {
    let mut player = player_with(TetrominoVariant::O);
    player.falling = square_on_the_floor();
    player.lock_reset_count = LOCK_RESET_LIMIT;
    let effects = player.rotate(RotationDirection::Clockwise);
    assert_eq!(effects.message, Some(Message::Place(square_on_the_floor().geometry)));
    assert_eq!(player.board.0[0][4], Some(Color::Yellow));
}

#[test]
fn a_move_at_the_limit_in_mid_air_does_nothing() {
    let mut player = player_with(TetrominoVariant::T);
    player.lock_reset_count = LOCK_RESET_LIMIT;
    let before = player.falling;
    assert_eq!(player.shift(ShiftDirection::Left), NOTHING);
    assert_eq!(player.falling, before);
    assert_eq!(player.board.0, Board::new().0);
    // The next step down gives the resets back.
    player.drop();
    assert_eq!(player.lock_reset_count, 0);
    assert!(player.shift(ShiftDirection::Left).lock_delay);
}

#[test]
fn place_leaves_a_piece_in_mid_air_alone() {
    let mut player = player_with(TetrominoVariant::T);
    let before = player.falling;
    assert_eq!(player.place(), NOTHING);
    assert_eq!(player.falling, before);
    assert_eq!(player.board.0, Board::new().0);
}

#[test]
fn place_commits_and_spawns_the_next_piece() {
    let mut player = player_with(TetrominoVariant::O);
    player.falling = square_on_the_floor();
    player.can_hold = false;
    player.locking = true;
    player.last_action_was_rotate = true;
    player.score.combo = 3;
    let next = player.bag.next.clone();
    let rest = player.bag.rest.clone();
    let effects = player.place();
    assert_eq!(
        effects,
        Effects {
            message: Some(Message::Place(square_on_the_floor().geometry)),
            lock_delay: false,
            line_clear_delay: false
        }
    );
    assert_eq!(player.falling.variant, next[0]);
    assert_eq!(player.bag.next, vec![next[1], next[2], *rest.last().unwrap()]);
    assert!(player.can_hold);
    assert!(!player.locking);
    assert!(!player.last_action_was_rotate);
    assert!(!player.lost);
    assert!(player.clearing.is_empty());
    // A placement without a full row ends the combo.
    assert_eq!(player.score.combo, -1);
    assert!(player.ghost_piece.is_some());
}

#[test]
fn place_marks_the_full_rows() {
    let mut player = player_with(TetrominoVariant::I);
    fill_row_but(&mut player.board, 0, 9);
    fill_row_but(&mut player.board, 1, 9);
    player.board.0[2][0] = Some(Color::Green);
    player.falling = line_in_the_last_column();
    player.score.combo = 2;
    let effects = player.place();
    assert_eq!(
        effects,
        Effects {
            message: Some(Message::Place(line_in_the_last_column().geometry)),
            lock_delay: false,
            line_clear_delay: true
        }
    );
    let marked: HashSet<usize> = [0usize, 1].into_iter().collect();
    assert_eq!(player.clearing, marked);
    // The combo goes on.
    assert_eq!(player.score.combo, 2);
    assert!(player.idle());
    assert!(!player.t_spin);
}

#[test]
fn a_player_with_marked_rows_takes_no_move() {
    let mut player = player_with(TetrominoVariant::I);
    fill_row_but(&mut player.board, 0, 9);
    player.falling = line_in_the_last_column();
    player.place();
    assert!(player.idle());
    let falling = player.falling;
    let board = player.board.copy();
    assert_eq!(player.shift(ShiftDirection::Left), NOTHING);
    assert_eq!(player.rotate(RotationDirection::Clockwise), NOTHING);
    assert_eq!(player.drop(), NOTHING);
    assert_eq!(player.soft_drop(), NOTHING);
    assert_eq!(player.hard_drop(), NOTHING);
    assert_eq!(player.hold(), NOTHING);
    assert_eq!(player.place(), NOTHING);
    assert_eq!(player.falling, falling);
    assert_eq!(player.board.0, board.0);
    assert_eq!(player.score.score, 0);
    assert_eq!(player.holding, None);
}

#[test]
fn line_clear_removes_the_rows_and_scores_a_double() {
    let mut player = player_with(TetrominoVariant::I);
    fill_row_but(&mut player.board, 0, 9);
    fill_row_but(&mut player.board, 1, 9);
    player.board.0[2][0] = Some(Color::Green);
    player.falling = line_in_the_last_column();
    player.place();
    assert!(player.can_clear());
    let kind = player.line_clear();
    assert_eq!(kind, ClearKind::Double);
    assert_eq!(kind.garbage_line_count(), 1);
    assert_eq!(player.score, Score { start_level: 1, level: 1, lines: 2, score: 300, combo: 0 });
    assert!(player.clearing.is_empty());
    assert!(!player.idle());
    assert_eq!(player.board.0.len(), 20);
    let mut bottom = vec![None; 10];
    bottom[0] = Some(Color::Green);
    bottom[9] = Some(Color::Cyan);
    assert_eq!(player.board.0[0], bottom);
    let mut second = vec![None; 10];
    second[9] = Some(Color::Cyan);
    assert_eq!(player.board.0[1], second);
    for y in 2..20 {
        assert_eq!(player.board.0[y], vec![None; 10]);
    }
}

#[test]
fn a_clear_that_empties_the_board_is_a_perfect_clear() {
    let mut player = player_with(TetrominoVariant::I);
    for y in 0..4 {
        fill_row_but(&mut player.board, y, 9);
    }
    player.falling = line_in_the_last_column();
    let effects = player.place();
    assert!(effects.line_clear_delay);
    assert_eq!(player.clearing.len(), 4);
    assert_eq!(player.line_clear(), ClearKind::PerfectClear);
    assert_eq!(player.board.0, Board::new().0);
    assert_eq!(player.score, Score { start_level: 1, level: 1, lines: 4, score: 2000, combo: 0 });
}

#[test]
fn four_rows_are_a_tetris() {
    let mut player = player_with(TetrominoVariant::I);
    for y in 0..4 {
        fill_row_but(&mut player.board, y, 9);
    }
    player.board.0[4][2] = Some(Color::Red);
    player.falling = line_in_the_last_column();
    player.place();
    assert_eq!(player.line_clear(), ClearKind::Tetris);
    assert_eq!(player.score.score, 800);
    assert_eq!(player.score.lines, 4);
    let mut bottom = vec![None; 10];
    bottom[2] = Some(Color::Red);
    assert_eq!(player.board.0[0], bottom);
}

/// A T piece facing south in a slot: the cells diagonal to its pivot are
/// filled but the one at the upper left.
fn spun_in() -> Player {
    let mut player = player_with(TetrominoVariant::T);
    fill_row_but(&mut player.board, 0, 4);
    for x in 0..10 {
        if x < 3 || x > 5 {
            player.board.0[1][x] = Some(Color::White);
        }
    }
    player.board.0[2][5] = Some(Color::White);
    player.board.0[3][9] = Some(Color::White);
    player.falling = Tetromino {
        geometry: Geometry {
            shape: [(5, 1), (4, 1), (4, 0), (3, 1)],
            center: (4, 1),
            direction: CardinalDirection::South,
        },
        color: Color::Magenta,
        variant: TetrominoVariant::T,
    };
    player.last_action_was_rotate = true;
    player
}

#[test]
fn t_spin_check_wants_a_turn_a_t_and_three_corners() {
    let mut player = spun_in();
    assert!(player.t_spin_check());
    player.last_action_was_rotate = false;
    assert!(!player.t_spin_check());
    player.last_action_was_rotate = true;
    player.board.0[2][5] = None;
    assert!(!player.t_spin_check());
    player.board.0[2][5] = Some(Color::White);
    player.falling.variant = TetrominoVariant::L;
    assert!(!player.t_spin_check());
}

#[test]
fn t_spin_check_counts_cells_outside_the_field() {
    let mut player = player_with(TetrominoVariant::T);
    // The pivot in the lower left corner: three of its diagonals are outside.
    player.falling = Tetromino {
        geometry: Geometry {
            shape: [(0, 1), (0, 0), (1, 0), (0, 0)],
            center: (0, 0),
            direction: CardinalDirection::East,
        },
        color: Color::Magenta,
        variant: TetrominoVariant::T,
    };
    player.last_action_was_rotate = true;
    assert!(player.t_spin_check());
}

#[test]
fn a_t_spin_double_is_scored_as_one() {
    let mut player = spun_in();
    let effects = player.place();
    assert!(effects.line_clear_delay);
    assert!(player.t_spin);
    assert_eq!(player.clearing.len(), 2);
    // The flag of the turn is spent, the mark of the spin stays for the clear.
    assert!(!player.last_action_was_rotate);
    assert_eq!(player.line_clear(), ClearKind::TSpinDouble);
    assert_eq!(player.score, Score { start_level: 1, level: 1, lines: 2, score: 1200, combo: 0 });
    assert!(!player.t_spin);
}

#[test]
fn without_a_turn_the_same_placement_is_a_double() {
    let mut player = spun_in();
    player.last_action_was_rotate = false;
    player.place();
    assert!(!player.t_spin);
    assert_eq!(player.line_clear(), ClearKind::Double);
    assert_eq!(player.score.score, 300);
}

#[test]
fn a_piece_above_the_top_row_ends_the_game() {
    let mut player = player_with(TetrominoVariant::I);
    for y in 0..19 {
        player.board.0[y][4] = Some(Color::Blue);
    }
    player.falling = Tetromino {
        geometry: Geometry {
            shape: [(4, 19), (4, 20), (4, 21), (4, 22)],
            center: (4, 20),
            direction: CardinalDirection::West,
        },
        color: Color::Cyan,
        variant: TetrominoVariant::I,
    };
    let falling = player.falling;
    assert_eq!(player.place(), NOTHING);
    assert!(player.lost);
    assert!(player.idle());
    // What was committed before the cell above the top row stays.
    assert_eq!(player.board.0[19][4], Some(Color::Cyan));
    assert_eq!(player.falling, falling);
    // Who has lost takes no move and no garbage.
    assert_eq!(player.hard_drop(), NOTHING);
    player.add_garbage(ClearKind::Tetris);
    assert_eq!(player.board.0.len(), 20);
}

#[test]
fn hold_draws_from_the_bag_the_first_time() {
    let mut player = player_with(TetrominoVariant::S);
    player.last_action_was_rotate = true;
    let next = player.bag.next.clone();
    let effects = player.hold();
    assert_eq!(
        effects,
        Effects { message: Some(Message::Hold), lock_delay: false, line_clear_delay: false }
    );
    assert_eq!(player.holding, Some(Tetromino::new(TetrominoVariant::S)));
    let mut falling = Tetromino::new(next[0]);
    falling.start_pos_transform(&player.board);
    assert_eq!(player.falling, falling);
    assert_eq!(player.bag.next[..2], next[1..]);
    assert!(!player.can_hold);
    assert!(!player.last_action_was_rotate);
    // Once for each piece.
    let before = player.falling;
    assert_eq!(player.hold(), NOTHING);
    assert_eq!(player.falling, before);
    assert_eq!(player.holding, Some(Tetromino::new(TetrominoVariant::S)));
}

#[test]
fn hold_swaps_with_the_held_piece_and_leaves_the_bag_alone() {
    let mut player = player_with(TetrominoVariant::S);
    player.holding = Some(Tetromino::new(TetrominoVariant::L));
    player.falling.geometry.transform(-2, -7);
    player.falling.geometry.rotate(RotationDirection::Clockwise);
    let next = player.bag.next.clone();
    let rest = player.bag.rest.clone();
    player.hold();
    let mut falling = Tetromino::new(TetrominoVariant::L);
    falling.start_pos_transform(&player.board);
    assert_eq!(player.falling, falling);
    // The held piece is kept as the catalog has it.
    assert_eq!(player.holding, Some(Tetromino::new(TetrominoVariant::S)));
    assert_eq!(player.bag.next, next);
    assert_eq!(player.bag.rest, rest);
    assert!(player.ghost_piece.is_some());
}

#[test]
fn a_placement_allows_the_next_hold() {
    let mut player = player_with(TetrominoVariant::S);
    player.hold();
    assert!(!player.can_hold);
    player.hard_drop();
    assert!(player.can_hold);
    assert_eq!(player.hold().message, Some(Message::Hold));
}

#[test]
fn soft_drop_is_a_step_and_a_point() {
    let mut player = player_with(TetrominoVariant::I);
    let effects = player.soft_drop();
    assert_eq!(player.falling.geometry.shape, [(3, 18), (4, 18), (5, 18), (6, 18)]);
    assert_eq!(player.score.score, 1);
    assert_eq!(
        effects,
        Effects {
            message: Some(Message::Pos(player.falling.geometry)),
            lock_delay: true,
            line_clear_delay: false
        }
    );
}

#[test]
fn soft_drop_of_a_resting_piece_gives_no_point() {
    let mut player = player_with(TetrominoVariant::O);
    player.falling = square_on_the_floor();
    let effects = player.soft_drop();
    assert_eq!(player.score.score, 0);
    assert_eq!(player.falling, square_on_the_floor());
    assert!(player.locking);
    assert_eq!(
        effects,
        Effects {
            message: Some(Message::Pos(square_on_the_floor().geometry)),
            lock_delay: false,
            line_clear_delay: false
        }
    );
}

#[test]
fn the_step_onto_the_floor_gives_its_point() {
    let mut player = player_with(TetrominoVariant::O);
    player.falling = square_on_the_floor();
    player.falling.geometry.transform(0, 1);
    player.soft_drop();
    assert_eq!(player.falling, square_on_the_floor());
    assert_eq!(player.score.score, 1);
    assert!(player.locking);
}

#[test]
fn hard_drop_lands_scores_and_commits() {
    let mut player = player_with(TetrominoVariant::I);
    let upcoming = player.bag.next[0];
    let effects = player.hard_drop();
    let landed = Geometry {
        shape: [(3, 0), (4, 0), (5, 0), (6, 0)],
        center: (4, 0),
        direction: CardinalDirection::North,
    };
    assert_eq!(
        effects,
        Effects { message: Some(Message::Place(landed)), lock_delay: false, line_clear_delay: false }
    );
    // Nineteen rows at two points each.
    assert_eq!(player.score.score, 38);
    for x in 3..7 {
        assert_eq!(player.board.0[0][x], Some(Color::Cyan));
    }
    assert_eq!(player.board.0.iter().flatten().filter(|cell| cell.is_some()).count(), 4);
    assert_eq!(player.falling.variant, upcoming);
}

#[test]
fn the_next_piece_starts_higher_over_a_tall_stack() {
    let mut player = player_with(TetrominoVariant::O);
    for y in 0..18 {
        player.board.0[y][0] = Some(Color::Blue);
    }
    // The O lands on the rows 18 and 19 of the columns 0 and 1.
    player.falling = Tetromino::new(TetrominoVariant::O);
    player.falling.geometry.transform(-1, 18);
    assert_eq!(player.falling.geometry.shape, [(0, 18), (0, 19), (1, 18), (1, 19)]);
    let upcoming = player.bag.next[0];
    player.place();
    assert!(!player.lost);
    let mut expected = Tetromino::new(upcoming);
    // The rows 17, 18 and 19 are in use: three rows up.
    expected.geometry.transform(3, 21);
    assert_eq!(player.falling, expected);
    let mut landed = Tetromino::new(upcoming);
    landed.geometry.transform(3, 0);
    assert_eq!(player.ghost_piece.unwrap().geometry.center.0, landed.geometry.center.0);
}

#[test]
fn set_falling_geometry_takes_the_pose_of_the_peer() {
    let mut player = player_with(TetrominoVariant::O);
    let before = player.falling;
    assert!(player.set_falling_geometry(square_on_the_floor().geometry));
    assert_eq!(player.falling.geometry, square_on_the_floor().geometry);
    assert_eq!(player.falling.variant, before.variant);
    assert!(player.locking);
    assert_eq!(player.ghost_piece, Some(player.falling));
    let mut higher = square_on_the_floor().geometry;
    higher.transform(0, 5);
    assert!(player.set_falling_geometry(higher));
    assert!(!player.locking);
    assert_eq!(player.ghost_piece, Some(square_on_the_floor()));
}

#[test]
fn set_falling_geometry_refuses_a_pose_outside_the_field() {
    let mut player = player_with(TetrominoVariant::O);
    let before = player.falling;
    let ghost = player.ghost_piece;
    let mut refused = Vec::new();
    let mut left = square_on_the_floor().geometry;
    left.transform(-5, 0);
    refused.push(left);
    let mut right = square_on_the_floor().geometry;
    right.transform(5, 0);
    refused.push(right);
    let mut below = square_on_the_floor().geometry;
    below.transform(0, -1);
    refused.push(below);
    let mut above = square_on_the_floor().geometry;
    above.transform(0, 24);
    refused.push(above);
    // Cells too far from the pivot for the variant.
    let mut torn = square_on_the_floor().geometry;
    torn.shape[3] = (6, 1);
    refused.push(torn);
    refused.push(line_in_the_last_column().geometry);
    for geometry in refused {
        assert!(!player.set_falling_geometry(geometry));
        assert_eq!(player.falling, before);
        assert_eq!(player.ghost_piece, ghost);
        assert!(!player.locking);
    }
}

#[test]
fn add_garbage_lifts_the_falling_piece() {
    let mut player = player_with(TetrominoVariant::O);
    player.falling = square_on_the_floor();
    player.update_ghost();
    player.add_garbage(ClearKind::Tetris);
    assert_eq!(player.board.0.len(), 24);
    for y in 0..4 {
        assert_eq!(player.board.0[y].iter().filter(|cell| cell.is_none()).count(), 1);
        assert_eq!(player.board.0[y], player.board.0[0]);
    }
    assert_eq!(player.falling.geometry.shape, [(4, 4), (4, 5), (5, 4), (5, 5)]);
    assert_eq!(player.falling.geometry.center, (4, 4));
    assert_eq!(player.ghost_piece, Some(player.falling));
    assert!(player.clearing.is_empty());
    assert!(!player.board.overlapping(&player.falling));
}

#[test]
fn add_garbage_of_a_single_adds_no_row() {
    let mut player = player_with(TetrominoVariant::O);
    let falling = player.falling;
    player.add_garbage(ClearKind::Single);
    assert_eq!(player.board.0, Board::new().0);
    assert_eq!(player.falling, falling);
}

#[test]
fn add_garbage_moves_the_marks_with_the_rows() {
    let mut player = player_with(TetrominoVariant::I);
    fill_row_but(&mut player.board, 0, 9);
    player.board.0[1][0] = Some(Color::Green);
    player.falling = line_in_the_last_column();
    player.place();
    let marked: HashSet<usize> = [0usize].into_iter().collect();
    assert_eq!(player.clearing, marked);
    player.add_garbage(ClearKind::Triple);
    let moved: HashSet<usize> = [2usize].into_iter().collect();
    assert_eq!(player.clearing, moved);
    assert_eq!(player.line_clear(), ClearKind::Single);
    assert_eq!(player.board.0.len(), 22);
    // The garbage stays, the full row is gone.
    assert_eq!(player.board.0[0].iter().filter(|cell| cell.is_none()).count(), 1);
    assert_eq!(player.board.0[1], player.board.0[0]);
    let mut third = vec![None; 10];
    third[0] = Some(Color::Green);
    third[9] = Some(Color::Cyan);
    assert_eq!(player.board.0[2], third);
}

#[test]
fn mark_clear_marks_and_ends_the_combo_where_nothing_is_full() {
    let mut player = player_with(TetrominoVariant::I);
    player.score.combo = 5;
    assert!(!player.mark_clear());
    assert_eq!(player.score.combo, -1);
    player.score.combo = 5;
    player.board.0[7] = vec![Some(Color::White); 10];
    assert!(player.mark_clear());
    let marked: HashSet<usize> = [7usize].into_iter().collect();
    assert_eq!(player.clearing, marked);
    assert_eq!(player.score.combo, 5);
}

#[test]
fn can_take_tells_whether_the_points_fit() {
    let mut player = player_with(TetrominoVariant::I);
    player.score.score = u32::MAX - 37;
    assert!(!player.can_take(InputAction::HardDrop));
    assert!(player.can_take(InputAction::SoftDrop));
    assert!(player.can_take(InputAction::MoveLeft));
    player.score.score = u32::MAX - 38;
    assert!(player.can_take(InputAction::HardDrop));
    player.score.score = u32::MAX;
    assert!(!player.can_take(InputAction::SoftDrop));
    player.falling = line_in_the_last_column();
    assert!(player.can_take(InputAction::SoftDrop));
    assert!(player.can_take(InputAction::HardDrop));
}

#[test]
fn can_clear_tells_whether_the_points_fit() {
    let mut player = player_with(TetrominoVariant::I);
    fill_row_but(&mut player.board, 0, 9);
    player.board.0[1][0] = Some(Color::Green);
    player.falling = line_in_the_last_column();
    player.place();
    player.score.score = u32::MAX - 100;
    assert!(player.can_clear());
    player.score.score = u32::MAX - 99;
    assert!(!player.can_clear());
}

#[test]
fn handle_game_event_does_what_the_key_asks() {
    let mut player = player_with(TetrominoVariant::T);
    let effects = handle_game_event(&mut player, InputAction::MoveRight);
    assert_eq!(player.falling.geometry.center, (6, 18));
    assert_eq!(effects.message, Some(Message::Pos(player.falling.geometry)));
    handle_game_event(&mut player, InputAction::MoveLeft);
    assert_eq!(player.falling.geometry.center, (5, 18));
    handle_game_event(&mut player, InputAction::RotateRight);
    assert_eq!(player.falling.geometry.direction, CardinalDirection::East);
    handle_game_event(&mut player, InputAction::RotateLeft);
    handle_game_event(&mut player, InputAction::RotateLeft);
    assert_eq!(player.falling.geometry.direction, CardinalDirection::West);
    handle_game_event(&mut player, InputAction::SoftDrop);
    assert_eq!(player.falling.geometry.center, (5, 17));
    assert_eq!(player.score.score, 1);
    let effects = handle_game_event(&mut player, InputAction::Hold);
    assert_eq!(effects.message, Some(Message::Hold));
    assert_eq!(player.holding, Some(Tetromino::new(TetrominoVariant::T)));
    let effects = handle_game_event(&mut player, InputAction::HardDrop);
    assert!(matches!(effects.message, Some(Message::Place(_))));
    assert!(!player.board.is_blank());
    assert!(!player.lost);
    assert_eq!(handle_game_event(&mut player, InputAction::Quit), NOTHING);
    assert!(player.lost);
}

#[test]
fn take_garbage_puts_the_rows_under_the_board() {
    let mut player = player_with(TetrominoVariant::O);
    player.board.0[0][2] = Some(Color::Red);
    player.falling = square_on_the_floor();
    player.take_garbage(2, 4);
    assert_eq!(player.board.0.len(), 22);
    let mut garbage = vec![Some(Color::White); 10];
    garbage[4] = None;
    assert_eq!(player.board.0[0], garbage);
    assert_eq!(player.board.0[1], garbage);
    let mut third = vec![None; 10];
    third[2] = Some(Color::Red);
    assert_eq!(player.board.0[2], third);
    // Column 5 of the garbage is filled: the piece is lifted over it.
    assert_eq!(player.falling.geometry.shape, [(4, 2), (4, 3), (5, 2), (5, 3)]);
    assert_eq!(player.ghost_piece, Some(player.falling));
    assert!(player.clearing.is_empty());
}

#[test]
fn take_garbage_leaves_a_piece_in_the_hole_where_it_is() {
    let mut player = player_with(TetrominoVariant::I);
    player.falling = line_in_the_last_column();
    player.take_garbage(4, 9);
    assert_eq!(player.board.0.len(), 24);
    assert_eq!(player.falling, line_in_the_last_column());
}

#[test]
fn key_map_binds_the_keys_that_a_name_stands_for() {
    let action = InputAction::Hold;
    assert_eq!(
        key_map(b"c", action),
        Some(vec![(Key::Char(b'C'), action), (Key::Char(b'c'), action)])
    );
    assert_eq!(
        key_map(b"Q", action),
        Some(vec![(Key::Char(b'Q'), action), (Key::Char(b'q'), action)])
    );
    assert_eq!(
        key_map(b"1", action),
        Some(vec![(Key::Char(b'1'), action), (Key::Char(b'1'), action)])
    );
    assert_eq!(key_map(b"up", action), Some(vec![(Key::Up, action)]));
    assert_eq!(key_map(b"down", action), Some(vec![(Key::Down, action)]));
    assert_eq!(key_map(b"left", action), Some(vec![(Key::Left, action)]));
    assert_eq!(key_map(b"right", action), Some(vec![(Key::Right, action)]));
    assert_eq!(key_map(b"space", action), Some(vec![(Key::Char(b' '), action)]));
    assert_eq!(key_map(b"escape", action), Some(vec![(Key::Esc, action)]));
    assert_eq!(key_map(b"", action), None);
    assert_eq!(key_map(b"Up", action), None);
    assert_eq!(key_map(b"upp", action), None);
    assert_eq!(key_map(b"esc", action), None);
    assert_eq!(key_map(&[200], action), None);
    assert_eq!(key_map("ä".as_bytes(), action), None);
}

#[test]
fn the_stack_is_the_board() {
    let mut stack = tetris::board::Stack::new();
    assert!(stack.add(&square_on_the_floor()));
    assert_eq!(stack.evaluate_height(), 0);
    assert_eq!(stack.evaluate_gaps(), 0);
}
