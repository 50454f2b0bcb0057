//! Twist detection policies, consulted just before a piece locks.

use vstd::prelude::*;

use crate::board::{cell_filled, obstructed, Board};
use crate::piece::{Piece, PieceSet, PieceType};
use crate::position::Position;

verus! {

/// A policy that tells whether locking a piece where it stands is a twist.
pub trait TwistDetector<TPieceSet: PieceSet> {
    /// Whether `piece`, about to lock on `rows`, counts as a twist.
    spec fn detects(&self, rows: Seq<[bool; 10]>, piece_set: TPieceSet, piece: Piece) -> bool;

    fn is_twist(&self, board: &Board, piece_set: &TPieceSet, piece: &Piece) -> (r: bool)
        requires
            board.wf(),
        ensures
            r == self.detects(board.rows@, *piece_set, *piece),
    ;
}

pub open spec fn filled_count(b: bool) -> int {
    if b {
        1
    } else {
        0
    }
}

/// How many of the four diagonal neighbours of `(x, y)` are filled or off the
/// board.
pub open spec fn corner_count(rows: Seq<[bool; 10]>, x: int, y: int) -> int {
    filled_count(cell_filled(rows, x - 1, y + 1)) + filled_count(cell_filled(rows, x + 1, y + 1))
        + filled_count(cell_filled(rows, x - 1, y - 1)) + filled_count(
        cell_filled(rows, x + 1, y - 1),
    )
}

/// A T piece with at least three of its anchor's diagonal corners filled.
pub open spec fn three_corner_twist(rows: Seq<[bool; 10]>, piece: Piece) -> bool {
    piece.piece_type == PieceType::T && corner_count(
        rows,
        piece.position.x as int,
        piece.position.y as int,
    ) >= 3
}

/// The shape cannot move one cell left, right, up or down.
pub open spec fn boxed_in(rows: Seq<[bool; 10]>, units: Seq<Position>, x: int, y: int) -> bool {
    &&& obstructed(rows, units, x - 1, y)
    &&& obstructed(rows, units, x + 1, y)
    &&& obstructed(rows, units, x, y + 1)
    &&& obstructed(rows, units, x, y - 1)
}

/// Counts a T piece as a twist when three of its four diagonal corners are
/// filled.
pub struct ThreeCornerTTwistDetector;

impl<TPieceSet: PieceSet> TwistDetector<TPieceSet> for ThreeCornerTTwistDetector {
    open spec fn detects(&self, rows: Seq<[bool; 10]>, piece_set: TPieceSet, piece: Piece) -> bool {
        three_corner_twist(rows, piece)
    }

    fn is_twist(&self, board: &Board, piece_set: &TPieceSet, piece: &Piece) -> (r: bool) {
        if piece.piece_type == PieceType::T {
            let x = piece.position.x as i64;
            let y = piece.position.y as i64;
            let mut corner_count: u8 = 0;
            if board.filled_at(x - 1, y + 1) {
                corner_count += 1;
            }
            if board.filled_at(x + 1, y + 1) {
                corner_count += 1;
            }
            if board.filled_at(x - 1, y - 1) {
                corner_count += 1;
            }
            if board.filled_at(x + 1, y - 1) {
                corner_count += 1;
            }
            return corner_count >= 3;
        }
        false
    }
}

/// Counts any piece as a twist when it cannot move in any of the four
/// directions.
pub struct AllTwistDetector;

impl<TPieceSet: PieceSet> TwistDetector<TPieceSet> for AllTwistDetector {
    open spec fn detects(&self, rows: Seq<[bool; 10]>, piece_set: TPieceSet, piece: Piece) -> bool {
        boxed_in(
            rows,
            piece_set.unit_offsets(piece.piece_type, piece.rotation),
            piece.position.x as int,
            piece.position.y as int,
        )
    }

    fn is_twist(&self, board: &Board, piece_set: &TPieceSet, piece: &Piece) -> (r: bool) {
        let units = piece_set.units(&piece.piece_type, &piece.rotation);
        let x = piece.position.x as i64;
        let y = piece.position.y as i64;
        board.obstructed_at(&units, x - 1, y) && board.obstructed_at(&units, x + 1, y)
            && board.obstructed_at(&units, x, y + 1) && board.obstructed_at(&units, x, y - 1)
    }
}

/// With exactly three diagonal corners filled a T piece is a twist; with
/// exactly two it is not.
pub proof fn lemma_three_corner_threshold(rows: Seq<[bool; 10]>, piece: Piece)
    requires
        piece.piece_type == PieceType::T,
    ensures
        corner_count(rows, piece.position.x as int, piece.position.y as int) == 3 ==> three_corner_twist(
            rows,
            piece,
        ),
        corner_count(rows, piece.position.x as int, piece.position.y as int) == 2 ==> !three_corner_twist(
            rows,
            piece,
        ),
{
}

} // verus!
