use tetris::board::{can_place, clear_lines, lock_piece, new_board, row_complete, COLS, ROWS};
use tetris::game::{level_lines, level_time, Move, Tetris};
use tetris::piece::{is_occupied, rotation_mask, state_count, Tetrimino, BOX, NUM_KINDS};
use tetris::random::PieceSource;

fn occupied_cells(p: &Tetrimino) -> Vec<(usize, usize)> {
    let mut cells = Vec::new();
    for r in 0..BOX {
        for c in 0..BOX {
            if is_occupied(p.kind, p.current_state, r, c) {
                cells.push((r, c));
            }
        }
    }
    cells
}

fn filled_count(m: &Vec<Vec<u8>>) -> usize {
    m.iter().map(|row| row.iter().filter(|c| **c != 0).count()).sum()
}

#[test]
fn every_state_has_four_cells() {
    for kind in 0..NUM_KINDS {
        let n = state_count(kind);
        assert!(n >= 1 && n <= 4);
        for state in 0..n {
            let p = Tetrimino { kind, current_state: state, x: 0, y: 0 };
            assert_eq!(occupied_cells(&p).len(), 4, "kind {} state {}", kind, state);
        }
    }
}

#[test]
fn shape_masks_are_exact() {
    assert_eq!(rotation_mask(0, 0), 0x000F);
    assert_eq!(rotation_mask(3, 0), 0x0033);
    assert_eq!(rotation_mask(6, 3), 0x0262);
    let o = Tetrimino::new(3);
    assert_eq!(occupied_cells(&o), vec![(0, 0), (0, 1), (1, 0), (1, 1)]);
    assert_eq!(o.material(), 4);
}

#[test]
fn new_board_is_empty_and_sized() {
    let m = new_board();
    assert_eq!(m.len(), ROWS);
    for row in &m {
        assert_eq!(row.len(), COLS);
        assert!(row.iter().all(|c| *c == 0));
    }
}

#[test]
fn can_place_rejects_out_of_columns() {
    let m = new_board();
    // The I piece lying flat occupies row 0, columns 0..4 of its box.
    assert!(can_place(&m, 0, 0, 0, 0));
    assert!(can_place(&m, 0, 0, 6, 0));
    assert!(!can_place(&m, 0, 0, 7, 0));
    assert!(!can_place(&m, 0, 0, -1, 0));
    assert!(!can_place(&m, 0, 0, isize::MIN, 0));
    assert!(!can_place(&m, 0, 0, isize::MAX, 0));
}

#[test]
fn can_place_rejects_below_board() {
    let m = new_board();
    assert!(can_place(&m, 3, 0, 0, 14));
    assert!(!can_place(&m, 3, 0, 0, 15));
    assert!(!can_place(&m, 3, 0, 0, usize::MAX));
}

#[test]
fn can_place_rejects_filled_cell() {
    let mut m = new_board();
    m[5][5] = 2;
    assert!(!can_place(&m, 3, 0, 4, 4));
    assert!(!can_place(&m, 3, 0, 5, 5));
    assert!(can_place(&m, 3, 0, 6, 5));
    assert!(can_place(&m, 3, 0, 3, 5));
}

#[test]
fn failed_move_leaves_piece_unchanged() {
    let mut m = new_board();
    m[2][5] = 1;
    let mut p = Tetrimino::new(3);
    let before = p;
    assert!(!p.try_move(&m, 0, 1));
    assert_eq!(p, before);
    assert!(!p.try_move(&m, 0, -1));
    assert_eq!(p, before);
    assert!(p.try_move(&m, -1, 0));
    assert_eq!(p, Tetrimino { x: 3, ..before });
}

#[test]
fn failed_rotation_leaves_piece_unchanged() {
    let m = new_board();
    // The I piece lying flat at the left wall: upright it would use column
    // 1 of its box, rows 0..4; at the bottom it cannot stand up.
    let mut p = Tetrimino { kind: 0, current_state: 0, x: 0, y: 15 };
    let before = p;
    assert!(!p.try_rotate(&m));
    assert_eq!(p, before);
    let mut q = Tetrimino { kind: 0, current_state: 0, x: 0, y: 0 };
    assert!(q.try_rotate(&m));
    assert_eq!(q.current_state, 1);
    assert!(q.try_rotate(&m));
    assert_eq!(q.current_state, 0);
}

#[test]
fn change_position_moves_only_where_it_fits() {
    let m = new_board();
    let mut p = Tetrimino::new(6);
    assert!(p.change_position(&m, 2, 7));
    assert_eq!((p.x, p.y), (2, 7));
    assert!(!p.change_position(&m, 9, 7));
    assert_eq!((p.x, p.y), (2, 7));
    assert!(p.test_current_position(&m));
}

#[test]
fn hard_drop_lands_on_floor_or_stack() {
    let mut m = new_board();
    let mut p = Tetrimino::new(3);
    assert_eq!(p.hard_drop(&m), 14);
    assert_eq!(p.y, 14);
    m[10][4] = 1;
    let mut q = Tetrimino::new(3);
    assert_eq!(q.hard_drop(&m), 8);
    assert_eq!((q.x, q.kind, q.current_state), (4, 3, 0));
}

#[test]
fn clear_one_full_row() {
    let mut m = new_board();
    for c in 0..COLS {
        m[ROWS - 1][c] = (c % 7 + 1) as u8;
    }
    m[ROWS - 2][3] = 5;
    assert!(row_complete(&m[ROWS - 1]));
    let (removed, score) = clear_lines(&mut m, 1);
    assert_eq!(removed, 1);
    assert_eq!(score, 1);
    assert_eq!(m.len(), ROWS);
    assert!(m[0].iter().all(|c| *c == 0));
    assert_eq!(m[0].len(), COLS);
    // The partial row moved down by one.
    assert_eq!(m[ROWS - 1][3], 5);
    assert_eq!(filled_count(&m), 1);
}

#[test]
fn clear_full_board_gives_bonus() {
    let mut m = new_board();
    for r in 0..ROWS {
        for c in 0..COLS {
            m[r][c] = 7;
        }
    }
    let (removed, score) = clear_lines(&mut m, 1);
    assert_eq!(removed, 16);
    assert_eq!(score, 16 * 1 + 1000);
    assert_eq!(m.len(), ROWS);
    assert_eq!(filled_count(&m), 0);
}

#[test]
fn clear_scores_by_level() {
    let mut m = new_board();
    for r in [3usize, 9] {
        for c in 0..COLS {
            m[r][c] = 2;
        }
    }
    m[4][0] = 1;
    let (removed, score) = clear_lines(&mut m, 7);
    assert_eq!((removed, score), (2, 14));
    // One complete row (row 3) stood above row 4, so it moves down by one.
    assert_eq!(m[5][0], 1);
}

#[test]
fn clear_again_changes_nothing() {
    let mut m = new_board();
    for c in 0..COLS {
        m[12][c] = 3;
    }
    m[13][2] = 4;
    clear_lines(&mut m, 2);
    let after = m.clone();
    assert_eq!(clear_lines(&mut m, 2), (0, 0));
    assert_eq!(m, after);
}

#[test]
fn lock_writes_material_and_skips_nothing_inside() {
    let mut m = new_board();
    let p = Tetrimino { kind: 6, current_state: 0, x: 2, y: 3 };
    lock_piece(&mut m, &p);
    // T: (0,0) (0,1) (0,2) (1,1)
    assert_eq!(m[3][2], 7);
    assert_eq!(m[3][3], 7);
    assert_eq!(m[3][4], 7);
    assert_eq!(m[4][3], 7);
    assert_eq!(filled_count(&m), 4);
}

#[test]
fn lock_drops_cells_outside_board() {
    let mut m = new_board();
    let p = Tetrimino { kind: 0, current_state: 1, x: 0, y: 14 };
    lock_piece(&mut m, &p);
    assert_eq!(m[14][1], 1);
    assert_eq!(m[15][1], 1);
    assert_eq!(filled_count(&m), 2);
    assert_eq!(m.len(), ROWS);
}

#[test]
fn blocked_piece_locks_in_its_pattern() {
    let mut t = Tetris::start(3);
    t.spawn(6);
    let mut p = t.current_piece.unwrap();
    p.hard_drop(&t.game_map);
    let before = p;
    assert!(!p.try_move(&t.game_map, 0, 1));
    assert_eq!(p, before);
    t.current_piece = Some(p);
    t.make_permanent();
    assert!(t.current_piece.is_none());
    for (r, c) in occupied_cells(&before) {
        assert_eq!(t.game_map[before.y + r][before.x as usize + c], 4);
    }
    assert_eq!(filled_count(&t.game_map), 4);
    assert_eq!(t.score, 1);
    t.spawn(0);
    assert_eq!(t.current_piece, Some(Tetrimino::new(6)));
    assert_eq!(t.next_piece, Some(Tetrimino::new(0)));
    assert!(!t.game_over);
}

#[test]
fn spawn_on_filled_cells_ends_game() {
    let mut t = Tetris::start(3);
    t.game_map[1][5] = 2;
    let board = t.game_map.clone();
    t.spawn(0);
    assert!(t.game_over);
    assert!(t.current_piece.is_none());
    assert!(t.next_piece.is_none());
    assert_eq!(t.game_map, board);
    assert_eq!(t.score, 0);
    // Nothing more happens to a finished game.
    t.spawn(1);
    assert!(t.current_piece.is_none());
    assert!(!t.apply(Move::Drop));
}

#[test]
fn spawn_without_next_piece_does_nothing() {
    let mut t = Tetris::new();
    t.spawn(2);
    assert!(t.current_piece.is_none());
    assert!(t.next_piece.is_none());
    assert!(!t.game_over);
}

#[test]
fn moves_through_apply() {
    let mut t = Tetris::start(3);
    t.spawn(1);
    assert!(!t.apply(Move::Left));
    assert_eq!(t.current_piece.unwrap().x, 3);
    assert!(!t.apply(Move::Right));
    assert!(!t.apply(Move::Right));
    assert_eq!(t.current_piece.unwrap().x, 5);
    for _ in 0..10 {
        t.apply(Move::Right);
    }
    assert_eq!(t.current_piece.unwrap().x, 8);
    assert!(!t.apply(Move::Down));
    assert_eq!(t.current_piece.unwrap().y, 1);
    assert!(!t.apply(Move::Rotate));
    assert_eq!(t.current_piece.unwrap().current_state, 0);
}

#[test]
fn down_at_floor_locks() {
    let mut t = Tetris::start(3);
    t.spawn(1);
    let mut locked = false;
    for _ in 0..20 {
        if t.apply(Move::Down) {
            locked = true;
            break;
        }
    }
    assert!(locked);
    assert!(t.current_piece.is_none());
    assert_eq!(t.game_map[14][4], 4);
    assert_eq!(t.game_map[15][5], 4);
    assert_eq!(t.score, 1);
}

#[test]
fn drop_locks_and_clears() {
    let mut t = Tetris::start(0);
    for c in 0..COLS {
        if c < 4 || c >= 8 {
            t.game_map[ROWS - 1][c] = 2;
        }
    }
    t.spawn(3);
    assert!(t.apply(Move::Drop));
    // The I piece filled columns 4..8 of the last row, which cleared.
    assert_eq!(filled_count(&t.game_map), 0);
    assert_eq!(t.nb_lines, 1);
    assert_eq!(t.score, 2);
    assert_eq!(t.game_map.len(), ROWS);
}

#[test]
fn counters_never_go_down() {
    let mut t = Tetris::start(0);
    let mut src = PieceSource::new(42);
    let mut last = (t.score, t.nb_lines, t.current_level);
    let moves = [Move::Left, Move::Rotate, Move::Right, Move::Down, Move::Drop];
    for step in 0..400 {
        if t.current_piece.is_none() {
            let k = src.next_kind();
            t.spawn(k);
        }
        if t.game_over {
            break;
        }
        t.apply(moves[step % moves.len()]);
        let now = (t.score, t.nb_lines, t.current_level);
        assert!(now.0 >= last.0 && now.1 >= last.1 && now.2 >= last.2);
        assert_eq!(t.game_map.len(), ROWS);
        last = now;
    }
}

#[test]
fn escape_ends_game_and_restart_resets() {
    let mut t = Tetris::start(2);
    t.spawn(4);
    t.apply(Move::Drop);
    t.spawn(5);
    let score = t.score;
    t.end_game();
    assert!(t.game_over);
    assert!(t.current_piece.is_none());
    assert_eq!(t.score, score);
    t.restart(1);
    assert!(!t.game_over);
    assert_eq!((t.score, t.nb_lines, t.current_level), (0, 0, 1));
    assert_eq!(filled_count(&t.game_map), 0);
    assert_eq!(t.next_piece, Some(Tetrimino::new(1)));
}

#[test]
fn restart_ignored_while_playing() {
    let mut t = Tetris::start(2);
    t.spawn(4);
    t.apply(Move::Drop);
    let score = t.score;
    t.restart(1);
    assert_eq!(t.score, score);
    assert_eq!(t.next_piece, Some(Tetrimino::new(4)));
}

#[test]
fn level_rises_past_threshold() {
    let mut t = Tetris::new();
    t.nb_lines = 20;
    t.increase_line();
    assert_eq!((t.nb_lines, t.current_level), (21, 2));
    t.increase_line();
    assert_eq!((t.nb_lines, t.current_level), (22, 2));
    t.nb_lines = 100;
    t.increase_line();
    // One step per line, however far past the threshold.
    assert_eq!(t.current_level, 3);
}

#[test]
fn level_rises_past_table() {
    let mut t = Tetris::new();
    t.current_level = 10;
    t.nb_lines = 200;
    t.increase_line();
    assert_eq!((t.nb_lines, t.current_level), (201, 11));
    t.increase_line();
    assert_eq!(t.current_level, 12);
    // Past the table the last threshold and interval hold.
    assert_eq!(level_lines(12), 200);
    assert!(t.is_time_over(191));
    assert!(!t.is_time_over(190));
    t.nb_lines = u32::MAX;
    t.increase_line();
    assert_eq!(t.nb_lines, u32::MAX);
    assert_eq!(t.current_level, 13);
    t.current_level = 10;
    t.increase_level();
    assert_eq!(t.current_level, 11);
}

#[test]
fn lock_skips_cells_below_board() {
    let mut t = Tetris::new();
    // Upright I piece whose last two cells are below the last row.
    t.current_piece = Some(Tetrimino { kind: 0, current_state: 1, x: 3, y: 14 });
    t.make_permanent();
    assert!(t.current_piece.is_none());
    assert_eq!(t.game_map.len(), ROWS);
    assert_eq!(t.game_map[14][4], 1);
    assert_eq!(t.game_map[15][4], 1);
    assert_eq!(filled_count(&t.game_map), 2);
    assert_eq!(t.score, 1);
}

#[test]
fn score_saturates() {
    let mut t = Tetris::new();
    t.update_score(10);
    assert_eq!(t.score, 10);
    t.score = u32::MAX - 1;
    t.update_score(5);
    assert_eq!(t.score, u32::MAX);
    t.increase_level();
    assert_eq!(t.current_level, 2);
}

#[test]
fn check_lines_counts_and_levels() {
    let mut t = Tetris::new();
    t.nb_lines = 19;
    for r in 12..ROWS {
        for c in 0..COLS {
            t.game_map[r][c] = 1;
        }
    }
    t.check_lines();
    assert_eq!(t.nb_lines, 23);
    assert_eq!(t.current_level, 2);
    assert_eq!(t.score, 4);
    assert_eq!(filled_count(&t.game_map), 0);
}

#[test]
fn gravity_interval_by_level() {
    let mut t = Tetris::new();
    assert!(!t.is_time_over(1000));
    assert!(t.is_time_over(1001));
    t.current_level = 10;
    assert!(!t.is_time_over(190));
    assert!(t.is_time_over(191));
    assert_eq!(level_time(2), 850);
    assert_eq!(level_time(9), 221);
    assert_eq!(level_lines(1), 20);
    assert_eq!(level_lines(10), 200);
}

#[test]
fn piece_source_is_deterministic() {
    let mut a = PieceSource::new(7);
    let mut b = PieceSource::new(7);
    let mut seen = [false; 7];
    for _ in 0..200 {
        let k = a.next_kind();
        assert_eq!(k, b.next_kind());
        assert!(k < NUM_KINDS);
        seen[k as usize] = true;
    }
    assert!(seen.iter().all(|s| *s));
    let mut c = PieceSource::new(0);
    c.next_kind();
    assert_eq!(c.state, 1442695040888963407);
}
