//! Piece types, rotations, pieces, and the piece-set interface.

use vstd::prelude::*;

use crate::board::{obstructed, units_bounded, Board};
use crate::position::Position;

verus! {

/// The seven tetromino shapes.
#[derive(Clone, Copy, Debug, PartialEq, Eq, Structural)]
pub enum PieceType {
    I,
    T,
    O,
    J,
    L,
    Z,
    S,
}

/// Every piece type once, in a fixed order.
pub open spec fn all_piece_types() -> Seq<PieceType> {
    seq![PieceType::I, PieceType::T, PieceType::O, PieceType::J, PieceType::L, PieceType::Z, PieceType::S]
}

impl PieceType {
    pub fn all() -> (r: Vec<PieceType>)
        ensures
            r@ == all_piece_types(),
    {
        let r = vec![
            PieceType::I,
            PieceType::T,
            PieceType::O,
            PieceType::J,
            PieceType::L,
            PieceType::Z,
            PieceType::S,
        ];
        assert(r@ =~= all_piece_types());
        r
    }
}

/// The sense of a rotation: clockwise or counter-clockwise.
#[derive(Clone, Copy, Debug, PartialEq, Eq, Structural)]
pub enum Direction {
    CW,
    CCW,
}

/// The four orientations of a piece, in clockwise order.
#[derive(Clone, Copy, Debug, PartialEq, Eq, Hash, Structural)]
pub enum Rotation {
    Up,
    Right,
    Down,
    Left,
}

/// The place of a rotation in the clockwise cycle.
pub open spec fn rotation_index(r: Rotation) -> int {
    match r {
        Rotation::Up => 0,
        Rotation::Right => 1,
        Rotation::Down => 2,
        Rotation::Left => 3,
    }
}

/// The rotation one step from `r` in the direction `d`.
pub open spec fn rotated(r: Rotation, d: Direction) -> Rotation {
    let i = match d {
        Direction::CW => (rotation_index(r) + 1) % 4,
        Direction::CCW => (rotation_index(r) + 3) % 4,
    };
    if i == 0 {
        Rotation::Up
    } else if i == 1 {
        Rotation::Right
    } else if i == 2 {
        Rotation::Down
    } else {
        Rotation::Left
    }
}

impl Rotation {
    pub fn rotate(&self, direction: Direction) -> (r: Rotation)
        ensures
            r == rotated(*self, direction),
    {
        match direction {
            Direction::CW => match self {
                Rotation::Up => Rotation::Right,
                Rotation::Right => Rotation::Down,
                Rotation::Down => Rotation::Left,
                Rotation::Left => Rotation::Up,
            },
            Direction::CCW => match self {
                Rotation::Up => Rotation::Left,
                Rotation::Right => Rotation::Up,
                Rotation::Down => Rotation::Right,
                Rotation::Left => Rotation::Down,
            },
        }
    }
}

/// A piece on the board: its shape, orientation and anchor cell.
#[derive(Clone, Copy, Debug, PartialEq, Eq, Structural)]
pub struct Piece {
    pub piece_type: PieceType,
    pub rotation: Rotation,
    pub position: Position,
}

/// A ruleset's piece geometry: the unit offsets of each shape and how a piece
/// turns on a board.
pub trait PieceSet {
    /// The offsets, from the anchor, of the four cells of a piece.
    spec fn unit_offsets(&self, piece_type: PieceType, rotation: Rotation) -> Seq<Position>;

    /// The piece that turning `piece` by `direction` on `rows` gives, if any.
    spec fn rotation_result(&self, rows: Seq<[bool; 10]>, piece: Piece, direction: Direction) -> Option<
        Piece,
    >;

    /// Every shape has four units, each a bounded offset from the anchor.
    proof fn lemma_unit_offsets(&self, piece_type: PieceType, rotation: Rotation)
        ensures
            self.unit_offsets(piece_type, rotation).len() == 4,
            units_bounded(self.unit_offsets(piece_type, rotation)),
    ;

    fn units(&self, piece_type: &PieceType, rotation: &Rotation) -> (r: [Position; 4])
        ensures
            r@ == self.unit_offsets(*piece_type, *rotation),
            units_bounded(r@),
    ;

    fn rotate_piece(&self, board: &Board, piece: &Piece, direction: Direction) -> (r: Option<Piece>)
        requires
            board.wf(),
        ensures
            r == self.rotation_result(board.rows@, *piece, direction),
            r matches Some(p) ==> p.piece_type == piece.piece_type && p.rotation == rotated(
                piece.rotation,
                direction,
            ) && !obstructed(
                board.rows@,
                self.unit_offsets(p.piece_type, p.rotation),
                p.position.x as int,
                p.position.y as int,
            ),
    ;
}

} // verus!
