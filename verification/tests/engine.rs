use tetris_core::block::Block;
use tetris_core::block::Direction;
use tetris_core::board::Board;
use tetris_core::board::BOARD_HEIGHT;
use tetris_core::board::BOARD_WIDTH;
use tetris_core::tetromino::color_of;
use tetris_core::tetromino::offsets_of;
use tetris_core::tetromino::tetrominos;
use tetris_core::tetromino::Color;
use tetris_core::tetromino::Tetromino;

fn block_at(t: Tetromino, rotation: usize, x: isize, y: isize) -> Block {
    Block {
        tetromino: t,
        rotation,
        position: (x, y),
    }
}

fn cell(board: &Board, x: usize, y: usize) -> Option<Color> {
    board.cells()[y][x]
}

fn grid_snapshot(board: &Board) -> Vec<Vec<Option<Color>>> {
    board.cells().clone()
}

#[test]
fn rotate_four_times_restores_piece() {
    for r in 0..4 {
        let p = block_at(Tetromino::T, r, 3, 7);
        let q = p.rotate().rotate().rotate().rotate();
        assert_eq!(q.rotation, r);
        assert_eq!(q.tetromino, p.tetromino);
        assert_eq!(q.position, p.position);
        assert_eq!(q, p);
    }
}

#[test]
fn rotate_advances_index_mod_four() {
    let p = block_at(Tetromino::L, 3, 4, 4);
    let q = p.rotate();
    assert_eq!(q.rotation, 0);
    assert_eq!(q.position, (4, 4));
    assert_eq!(q.tetromino, Tetromino::L);
}

#[test]
fn displace_left_moves_one_cell() {
    let p = block_at(Tetromino::S, 1, 5, 9);
    let q = p.displace(Direction::Left);
    assert_eq!(q.position, (4, 9));
    assert_eq!(q.rotation, p.rotation);
    assert_eq!(q.tetromino, p.tetromino);
}

#[test]
fn displace_right_moves_one_cell() {
    let p = block_at(Tetromino::S, 1, 5, 9);
    let q = p.displace(Direction::Right);
    assert_eq!(q.position, (6, 9));
    assert_eq!(q.rotation, p.rotation);
    assert_eq!(q.tetromino, p.tetromino);
}

#[test]
fn displace_down_moves_one_cell() {
    let p = block_at(Tetromino::S, 1, 5, 9);
    let q = p.displace(Direction::Down);
    assert_eq!(q.position, (5, 10));
    assert_eq!(q.rotation, p.rotation);
    assert_eq!(q.tetromino, p.tetromino);
}

#[test]
fn overlap_is_deterministic_and_pure() {
    let mut board = Board::new();
    board.merge(&block_at(Tetromino::O, 0, 4, 18));
    let before = grid_snapshot(&board);
    let p = block_at(Tetromino::O, 0, 4, 17);
    let r1 = board.overlap(&p);
    let r2 = board.overlap(&p);
    assert_eq!(r1, r2);
    assert_eq!(grid_snapshot(&board), before);
}

#[test]
fn merge_writes_exactly_the_piece_cells() {
    let mut board = Board::new();
    board.merge(&block_at(Tetromino::O, 0, 4, 10));
    for y in 0..BOARD_HEIGHT {
        for x in 0..BOARD_WIDTH {
            let covered = (x == 4 || x == 5) && (y == 10 || y == 11);
            if covered {
                assert_eq!(cell(&board, x, y), Some(Color::Yellow));
            } else {
                assert_eq!(cell(&board, x, y), None);
            }
        }
    }
}

#[test]
fn remove_lines_without_complete_rows_is_a_noop() {
    let mut board = Board::new();
    board.merge(&block_at(Tetromino::Z, 0, 2, 18));
    board.merge(&block_at(Tetromino::O, 0, 7, 18));
    let before = grid_snapshot(&board);
    let n = board.remove_lines();
    assert_eq!(n, 0);
    assert_eq!(grid_snapshot(&board), before);
}

#[test]
fn remove_lines_on_empty_board_returns_zero() {
    let mut board = Board::new();
    let n = board.remove_lines();
    assert_eq!(n, 0);
    for y in 0..BOARD_HEIGHT {
        for x in 0..BOARD_WIDTH {
            assert_eq!(cell(&board, x, y), None);
        }
    }
}

fn fill_row(board: &mut Board, y: isize) {
    // Three overlapping horizontal I pieces cover x = 0..=3, 4..=7, 6..=9.
    board.merge(&block_at(Tetromino::I, 0, 0, y));
    board.merge(&block_at(Tetromino::I, 0, 4, y));
    board.merge(&block_at(Tetromino::I, 0, 6, y));
}

#[test]
fn remove_lines_clears_exactly_the_complete_rows() {
    let mut board = Board::new();
    fill_row(&mut board, 18);
    fill_row(&mut board, 19);
    // A marker in row 17 that must survive and slide down two rows.
    board.merge(&block_at(Tetromino::O, 0, 2, 16));
    let n = board.remove_lines();
    assert_eq!(n, 2);
    // The old rows 16 and 17 are now rows 18 and 19.
    assert_eq!(cell(&board, 2, 18), Some(Color::Yellow));
    assert_eq!(cell(&board, 3, 18), Some(Color::Yellow));
    assert_eq!(cell(&board, 2, 19), Some(Color::Yellow));
    assert_eq!(cell(&board, 3, 19), Some(Color::Yellow));
    assert_eq!(cell(&board, 0, 19), None);
    assert_eq!(cell(&board, 4, 19), None);
    // Everything above is empty again.
    for y in 0..18 {
        for x in 0..BOARD_WIDTH {
            assert_eq!(cell(&board, x, y), None);
        }
    }
}

#[test]
fn piece_descends_and_stops_at_the_bottom_row() {
    let board = Board::new();
    let mut p = block_at(Tetromino::I, 0, 5, 0);
    assert!(!board.overlap(&p));
    for _ in 0..19 {
        let q = p.displace(Direction::Down);
        assert!(!board.overlap(&q));
        p = q;
    }
    assert_eq!(p.position, (5, 19));
    // One more row down would leave the grid through the floor.
    assert!(board.overlap(&p.displace(Direction::Down)));
}

#[test]
fn merging_into_the_last_gap_clears_the_row() {
    let mut board = Board::new();
    // Row 19 complete except for the cell at x = 0.
    board.merge(&block_at(Tetromino::I, 0, 1, 19));
    board.merge(&block_at(Tetromino::I, 0, 5, 19));
    board.merge(&block_at(Tetromino::I, 0, 6, 19));
    // A marker above that must slide down one row.
    board.merge(&block_at(Tetromino::O, 0, 3, 17));
    // A vertical I drops into the gap, covering (0, 16)..(0, 19).
    let p = block_at(Tetromino::I, 1, -1, 16);
    assert!(!board.overlap(&p));
    board.merge(&p);
    let n = board.remove_lines();
    assert_eq!(n, 1);
    // The old row 18 is now row 19: the marker's lower half and the I cell.
    assert_eq!(cell(&board, 0, 19), Some(Color::Cyan));
    assert_eq!(cell(&board, 3, 19), Some(Color::Yellow));
    assert_eq!(cell(&board, 4, 19), Some(Color::Yellow));
    assert_eq!(cell(&board, 1, 19), None);
    // The old row 17 is now row 18.
    assert_eq!(cell(&board, 0, 18), Some(Color::Cyan));
    assert_eq!(cell(&board, 3, 18), Some(Color::Yellow));
    assert_eq!(cell(&board, 4, 18), Some(Color::Yellow));
    assert_eq!(cell(&board, 0, 0), None);
}

#[test]
fn left_wall_rejects_a_piece() {
    let board = Board::new();
    let p = block_at(Tetromino::T, 0, 0, 0);
    assert!(!board.overlap(&p));
    // Moved left, its leftmost cell sits at x = -1: out of bounds.
    assert!(board.overlap(&p.displace(Direction::Left)));
}

#[test]
fn right_wall_and_corner_bounds() {
    let board = Board::new();
    // An O piece fits exactly into the bottom-right corner.
    let corner = block_at(Tetromino::O, 0, 8, 18);
    assert!(!board.overlap(&corner));
    assert!(board.overlap(&corner.displace(Direction::Right)));
    assert!(board.overlap(&corner.displace(Direction::Down)));
}

#[test]
fn overlap_sees_occupied_cells() {
    let mut board = Board::new();
    board.merge(&block_at(Tetromino::O, 0, 4, 18));
    // On top of the merged piece: blocked.
    assert!(board.overlap(&block_at(Tetromino::O, 0, 4, 17)));
    // Beside it: free.
    assert!(!board.overlap(&block_at(Tetromino::O, 0, 0, 18)));
}

#[test]
fn piece_above_the_top_is_not_rejected() {
    let board = Board::new();
    // The anchor sits above the visible grid; only x bounds and the floor
    // block a piece, so this does not overlap.
    let p = block_at(Tetromino::O, 0, 4, -2);
    assert!(!board.overlap(&p));
}

#[test]
fn catalog_lists_the_seven_shapes() {
    let shapes = tetrominos();
    assert_eq!(shapes.len(), 7);
    assert_eq!(
        shapes,
        vec![
            Tetromino::I,
            Tetromino::O,
            Tetromino::T,
            Tetromino::S,
            Tetromino::Z,
            Tetromino::J,
            Tetromino::L,
        ]
    );
}

#[test]
fn every_rotation_state_has_four_cells() {
    for t in tetrominos() {
        for r in 0..4 {
            assert_eq!(offsets_of(t, r).len(), 4);
        }
    }
}

#[test]
fn o_piece_offsets_are_rotation_invariant() {
    for r in 0..4 {
        assert_eq!(offsets_of(Tetromino::O, r), vec![(0, 0), (1, 0), (0, 1), (1, 1)]);
    }
}

#[test]
fn t_piece_offsets_change_under_rotation() {
    assert_eq!(offsets_of(Tetromino::T, 0), vec![(0, 0), (1, 0), (2, 0), (1, 1)]);
    assert_eq!(offsets_of(Tetromino::T, 1), vec![(1, 0), (0, 1), (1, 1), (1, 2)]);
    assert_ne!(offsets_of(Tetromino::T, 0), offsets_of(Tetromino::T, 1));
}

#[test]
fn colors_follow_the_shapes() {
    assert_eq!(color_of(Tetromino::I), Color::Cyan);
    assert_eq!(color_of(Tetromino::O), Color::Yellow);
    assert_eq!(color_of(Tetromino::T), Color::Purple);
    assert_eq!(color_of(Tetromino::S), Color::Green);
    assert_eq!(color_of(Tetromino::Z), Color::Red);
    assert_eq!(color_of(Tetromino::J), Color::Blue);
    assert_eq!(color_of(Tetromino::L), Color::Orange);
}

#[test]
fn spawned_pieces_start_at_the_spawn_anchor() {
    for _ in 0..64 {
        let b = Block::new();
        assert_eq!(b.rotation, 0);
        assert_eq!(b.position, (5, 0));
        assert_eq!(b.color(), color_of(b.tetromino));
        assert_eq!(b.rotation().len(), 4);
        // A freshly spawned piece never collides with an empty board.
        assert!(!Board::new().overlap(&b));
    }
}

#[test]
fn cells_are_position_plus_offsets() {
    let p = block_at(Tetromino::T, 0, 4, 6);
    assert_eq!(p.cells(), vec![(4, 6), (5, 6), (6, 6), (5, 7)]);
    // A piece beside the left wall can cover negative x transiently.
    let q = block_at(Tetromino::T, 0, -1, 0);
    assert_eq!(q.cells(), vec![(-1, 0), (0, 0), (1, 0), (0, 1)]);
}

#[test]
fn accessors_report_the_piece_fields() {
    let p = block_at(Tetromino::J, 2, 7, 3);
    assert_eq!(p.position(), (7, 3));
    assert_eq!(p.color(), Color::Blue);
    assert_eq!(p.rotation(), offsets_of(Tetromino::J, 2));
}
