use rustris::board::Board;
use rustris::piece::{PieceSet, PieceType, Rotation};
use rustris::position::Position;
use rustris::srs::SrsPieceSet;

fn p(x: i32, y: i32) -> Position {
    Position::new(x, y)
}

fn row_of(cells: &[usize]) -> [bool; 10] {
    let mut row = [false; 10];
    for &c in cells {
        row[c] = true;
    }
    row
}

#[test]
fn new_board_has_40_empty_rows() {
    let board = Board::new();
    assert_eq!(board.rows.len(), 40);
    assert!(board.rows.iter().all(|r| r.iter().all(|c| !c)));
    assert!(board.is_all_clear());
}

#[test]
fn obstructed_only_when_a_cell_is_off_board_or_filled() {
    let mut board = Board::new();
    let units = [p(0, 0), p(1, 0), p(0, 1), p(1, 1)];
    assert!(!board.is_obstructed(units, p(0, 0)));
    assert!(!board.is_obstructed(units, p(8, 38)));
    assert!(board.is_obstructed(units, p(-1, 0)));
    assert!(board.is_obstructed(units, p(9, 0)));
    assert!(board.is_obstructed(units, p(0, -1)));
    assert!(board.is_obstructed(units, p(0, 39)));
    board.rows[3][4] = true;
    assert!(board.is_obstructed(units, p(3, 2)));
    assert!(board.is_obstructed(units, p(4, 3)));
    assert!(!board.is_obstructed(units, p(5, 3)));
}

#[test]
fn is_filled_counts_off_board_cells() {
    let mut board = Board::new();
    board.rows[0][0] = true;
    assert!(board.is_filled(p(0, 0)));
    assert!(!board.is_filled(p(1, 0)));
    assert!(board.is_filled(p(-1, 5)));
    assert!(board.is_filled(p(10, 5)));
    assert!(board.is_filled(p(3, 40)));
    assert!(board.is_filled(p(3, -1)));
    assert!(board.is_filled(p(i32::MIN, i32::MAX)));
}

#[test]
fn locking_a_single_full_row_removes_it() {
    let mut board = Board::new();
    board.rows[2] = row_of(&[0, 1, 2, 3, 4, 5]);
    board.rows[3] = row_of(&[1]);
    board.rows[4] = row_of(&[9]);
    let units = [p(0, 0), p(1, 0), p(2, 0), p(3, 0)];
    let cleared = board.lock_piece(units, p(6, 2));
    assert_eq!(cleared, 1);
    assert_eq!(board.rows[2], row_of(&[1]));
    assert_eq!(board.rows[3], row_of(&[9]));
    assert_eq!(board.rows[39], row_of(&[]));
    assert_eq!(board.rows.len(), 40);
    assert!(board.rows[4..].iter().all(|r| r.iter().all(|c| !c)));
}

#[test]
fn locking_without_full_rows_only_fills_cells() {
    let mut board = Board::new();
    let units = [p(0, 0), p(1, 0), p(0, 1), p(1, 1)];
    assert_eq!(board.lock_piece(units, p(4, 0)), 0);
    assert_eq!(board.rows[0], row_of(&[4, 5]));
    assert_eq!(board.rows[1], row_of(&[4, 5]));
    assert!(!board.is_all_clear());
}

#[test]
fn locking_four_full_rows_clears_four() {
    let mut board = Board::new();
    for y in 0..4 {
        board.rows[y] = row_of(&[0, 1, 2, 3, 4, 5, 6, 7, 8]);
    }
    board.rows[4] = row_of(&[3]);
    let vertical = [p(0, -1), p(0, 0), p(0, 1), p(0, 2)];
    assert_eq!(board.lock_piece(vertical, p(9, 1)), 4);
    assert_eq!(board.rows[0], row_of(&[3]));
    assert!(board.rows[1..].iter().all(|r| r.iter().all(|c| !c)));
}

#[test]
fn separated_full_rows_are_all_cleared() {
    let mut board = Board::new();
    board.rows[0] = row_of(&[0, 1, 2, 3, 4, 5, 6, 7, 8]);
    board.rows[1] = row_of(&[0]);
    board.rows[2] = row_of(&[0, 1, 2, 3, 4, 5, 6, 7, 8]);
    board.rows[3] = row_of(&[5]);
    let units = [p(0, 0), p(0, 1), p(0, 2), p(0, 3)];
    assert_eq!(board.lock_piece(units, p(9, 0)), 2);
    assert_eq!(board.rows[0], row_of(&[0, 9]));
    assert_eq!(board.rows[1], row_of(&[5, 9]));
    assert_eq!(board.rows[2], row_of(&[]));
}

#[test]
fn locking_the_last_cells_leaves_the_board_clear() {
    let mut board = Board::new();
    board.rows[0] = row_of(&[0, 1, 2, 3, 4, 5]);
    let units = [p(0, 0), p(1, 0), p(2, 0), p(3, 0)];
    assert_eq!(board.lock_piece(units, p(6, 0)), 1);
    assert!(board.is_all_clear());
}

#[test]
fn cast_down_from_spawn_rests_on_the_floor() {
    let board = Board::new();
    let pieces = SrsPieceSet::new();
    let types = PieceType::all();
    for t in types.iter() {
        for r in [Rotation::Up, Rotation::Right, Rotation::Down, Rotation::Left] {
            let units = pieces.units(t, &r);
            let landed = board.piece_cast(units, p(4, 19), Position::down());
            assert_eq!(landed.x, 4);
            let lowest = units.iter().map(|u| landed.y + u.y).min().unwrap();
            assert_eq!(lowest, 0);
        }
    }
}

#[test]
fn cast_down_i_piece_from_spawn_lands_on_row_zero() {
    let board = Board::new();
    let units = SrsPieceSet::new().units(&PieceType::I, &Rotation::Up);
    assert_eq!(board.piece_cast(units, p(4, 19), Position::down()), p(4, 0));
}

#[test]
fn cast_stops_above_filled_cells() {
    let mut board = Board::new();
    board.rows[5][4] = true;
    let units = SrsPieceSet::new().units(&PieceType::O, &Rotation::Up);
    assert_eq!(board.piece_cast(units, p(4, 19), Position::down()), p(4, 6));
    assert_eq!(board.piece_cast(units, p(4, 19), Position::left()), p(0, 19));
    assert_eq!(board.piece_cast(units, p(4, 19), Position::right()), p(8, 19));
    assert_eq!(board.piece_cast(units, p(4, 19), Position::new(2, 0)), p(8, 19));
}

#[test]
fn cast_from_an_obstructed_start_stays_put_when_blocked() {
    let board = Board::new();
    let units = [p(0, 0), p(1, 0), p(0, 1), p(1, 1)];
    assert_eq!(board.piece_cast(units, p(20, 0), Position::right()), p(20, 0));
    assert_eq!(board.piece_cast(units, p(12, 0), Position::left()), p(12, 0));
    assert_eq!(board.piece_cast(units, p(9, 0), Position::left()), p(0, 0));
}

#[test]
fn cast_with_no_direction_from_an_obstructed_start_stays_put() {
    let board = Board::new();
    let units = [p(0, 0), p(1, 0), p(0, 1), p(1, 1)];
    assert_eq!(board.piece_cast(units, p(-3, 5), Position::new(0, 0)), p(-3, 5));
}
