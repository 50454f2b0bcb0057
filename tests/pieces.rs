use rustris::board::Board;
use rustris::piece::{Direction, Piece, PieceSet, PieceType, Rotation};
use rustris::position::Position;
use rustris::srs::SrsPieceSet;
use rustris::twist::{AllTwistDetector, ThreeCornerTTwistDetector, TwistDetector};

fn p(x: i32, y: i32) -> Position {
    Position::new(x, y)
}

#[test]
fn position_arithmetic() {
    let a = p(3, -2);
    let b = p(-1, 5);
    assert_eq!(a.add(b), p(2, 3));
    assert_eq!(a.sub(b), p(4, -7));
    assert_eq!(a.mul(3), p(9, -6));
    assert_eq!(a.neg(), p(-3, 2));
    let mut c = a;
    c.add_assign(b);
    assert_eq!(c, p(2, 3));
    c.sub_assign(b);
    assert_eq!(c, a);
    assert_eq!(Position::left(), p(-1, 0));
    assert_eq!(Position::right(), p(1, 0));
    assert_eq!(Position::up(), p(0, 1));
    assert_eq!(Position::down(), p(0, -1));
    assert_eq!(Position::down().mul(3), p(0, -3));
}

#[test]
fn all_piece_types_once_each() {
    assert_eq!(
        PieceType::all(),
        vec![
            PieceType::I,
            PieceType::T,
            PieceType::O,
            PieceType::J,
            PieceType::L,
            PieceType::Z,
            PieceType::S
        ]
    );
}

#[test]
fn rotation_cycles_both_ways() {
    assert_eq!(Rotation::Up.rotate(Direction::CW), Rotation::Right);
    assert_eq!(Rotation::Right.rotate(Direction::CW), Rotation::Down);
    assert_eq!(Rotation::Down.rotate(Direction::CW), Rotation::Left);
    assert_eq!(Rotation::Left.rotate(Direction::CW), Rotation::Up);
    assert_eq!(Rotation::Up.rotate(Direction::CCW), Rotation::Left);
    assert_eq!(Rotation::Left.rotate(Direction::CCW), Rotation::Down);
    assert_eq!(Rotation::Down.rotate(Direction::CCW), Rotation::Right);
    assert_eq!(Rotation::Right.rotate(Direction::CCW), Rotation::Up);
}

#[test]
fn srs_units_tables() {
    let s = SrsPieceSet::new();
    assert_eq!(s.units(&PieceType::I, &Rotation::Up), [p(-1, 0), p(0, 0), p(1, 0), p(2, 0)]);
    assert_eq!(s.units(&PieceType::I, &Rotation::Right), [p(0, -2), p(0, -1), p(0, 0), p(0, 1)]);
    assert_eq!(s.units(&PieceType::T, &Rotation::Up), [p(0, 0), p(-1, 0), p(1, 0), p(0, 1)]);
    assert_eq!(s.units(&PieceType::J, &Rotation::Left), [p(0, -1), p(0, 0), p(0, 1), p(-1, -1)]);
    assert_eq!(s.units(&PieceType::L, &Rotation::Down), [p(0, 0), p(-1, 0), p(1, 0), p(-1, -1)]);
    assert_eq!(s.units(&PieceType::Z, &Rotation::Right), [p(0, 0), p(0, -1), p(1, 0), p(1, 1)]);
    assert_eq!(s.units(&PieceType::S, &Rotation::Left), [p(0, 0), p(0, -1), p(-1, 0), p(-1, 1)]);
    for r in [Rotation::Up, Rotation::Right, Rotation::Down, Rotation::Left] {
        assert_eq!(s.units(&PieceType::O, &r), [p(0, 0), p(1, 0), p(0, 1), p(1, 1)]);
    }
}

fn piece(t: PieceType, r: Rotation, x: i32, y: i32) -> Piece {
    Piece { piece_type: t, rotation: r, position: p(x, y) }
}

#[test]
fn rotation_in_open_space_keeps_the_anchor() {
    let board = Board::new();
    let s = SrsPieceSet::new();
    let r = s.rotate_piece(&board, &piece(PieceType::T, Rotation::Up, 4, 10), Direction::CW);
    assert_eq!(r, Some(piece(PieceType::T, Rotation::Right, 4, 10)));
    let r = s.rotate_piece(&board, &piece(PieceType::O, Rotation::Up, 4, 10), Direction::CCW);
    assert_eq!(r, Some(piece(PieceType::O, Rotation::Left, 4, 10)));
}

#[test]
fn t_rotation_takes_the_third_kick() {
    let mut board = Board::new();
    // Blocks kick 0 (anchor 5,5) and kick 1 (anchor 4,5); kick 2 (anchor 4,6) is free.
    board.rows[5][6] = true;
    board.rows[4][4] = true;
    let s = SrsPieceSet::new();
    let r = s.rotate_piece(&board, &piece(PieceType::T, Rotation::Up, 5, 5), Direction::CW);
    assert_eq!(r, Some(piece(PieceType::T, Rotation::Right, 4, 6)));
}

#[test]
fn t_rotation_kicks_off_the_left_wall() {
    let board = Board::new();
    let s = SrsPieceSet::new();
    // Turning from Right to Up at column 0 needs kick 1, one column right.
    let r = s.rotate_piece(&board, &piece(PieceType::T, Rotation::Right, 0, 10), Direction::CCW);
    assert_eq!(r, Some(piece(PieceType::T, Rotation::Up, 1, 10)));
}

#[test]
fn rotation_fails_when_every_kick_is_blocked() {
    let mut board = Board::new();
    for y in 0..40 {
        for x in 0..10 {
            board.rows[y][x] = true;
        }
    }
    for x in 3..6 {
        board.rows[10][x] = false;
    }
    board.rows[11][4] = false;
    let s = SrsPieceSet::new();
    let t = piece(PieceType::T, Rotation::Up, 4, 10);
    assert!(!board.is_obstructed(s.units(&PieceType::T, &Rotation::Up), t.position));
    assert_eq!(s.rotate_piece(&board, &t, Direction::CW), None);
    assert_eq!(s.rotate_piece(&board, &t, Direction::CCW), None);
}

#[test]
fn i_rotation_uses_its_own_kicks() {
    let board = Board::new();
    let s = SrsPieceSet::new();
    // Up to Right: kick 0 offset is (0,0)-(-1,0) = (1,0).
    let r = s.rotate_piece(&board, &piece(PieceType::I, Rotation::Up, 4, 10), Direction::CW);
    assert_eq!(r, Some(piece(PieceType::I, Rotation::Right, 5, 10)));
}

#[test]
fn three_corner_twist_needs_three_corners() {
    let mut board = Board::new();
    let s = SrsPieceSet::new();
    let t = piece(PieceType::T, Rotation::Down, 4, 5);
    board.rows[6][3] = true;
    board.rows[6][5] = true;
    assert!(!ThreeCornerTTwistDetector.is_twist(&board, &s, &t));
    board.rows[4][3] = true;
    assert!(ThreeCornerTTwistDetector.is_twist(&board, &s, &t));
    board.rows[4][5] = true;
    assert!(ThreeCornerTTwistDetector.is_twist(&board, &s, &t));
    let o = piece(PieceType::O, Rotation::Up, 4, 5);
    assert!(!ThreeCornerTTwistDetector.is_twist(&board, &s, &o));
}

#[test]
fn three_corner_twist_counts_off_board_corners() {
    let mut board = Board::new();
    let s = SrsPieceSet::new();
    let t = piece(PieceType::T, Rotation::Up, 0, 0);
    assert!(ThreeCornerTTwistDetector.is_twist(&board, &s, &t));
    let t = piece(PieceType::T, Rotation::Up, 1, 0);
    assert!(!ThreeCornerTTwistDetector.is_twist(&board, &s, &t));
    board.rows[1][0] = true;
    assert!(ThreeCornerTTwistDetector.is_twist(&board, &s, &t));
}

#[test]
fn all_twist_needs_every_direction_blocked() {
    let mut board = Board::new();
    let s = SrsPieceSet::new();
    let o = piece(PieceType::O, Rotation::Up, 0, 0);
    assert!(!AllTwistDetector.is_twist(&board, &s, &o));
    board.rows[2][0] = true;
    assert!(!AllTwistDetector.is_twist(&board, &s, &o));
    board.rows[0][2] = true;
    assert!(AllTwistDetector.is_twist(&board, &s, &o));
}
