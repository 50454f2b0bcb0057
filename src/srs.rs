//! The Super Rotation System: unit-offset tables, kick tables and kick search.

use vstd::prelude::*;

use crate::board::{obstructed, units_bounded, Board, MAX_UNIT_OFFSET};
use crate::piece::{rotated, Direction, Piece, PieceSet, PieceType, Rotation};
use crate::position::Position;

verus! {

pub open spec fn spec_units_i(rotation: Rotation) -> Seq<Position> {
    match rotation {
        Rotation::Up => seq![
            Position { x: -1i32, y: 0i32 },
            Position { x: 0i32, y: 0i32 },
            Position { x: 1i32, y: 0i32 },
            Position { x: 2i32, y: 0i32 },
        ],
        Rotation::Right => seq![
            Position { x: 0i32, y: -2i32 },
            Position { x: 0i32, y: -1i32 },
            Position { x: 0i32, y: 0i32 },
            Position { x: 0i32, y: 1i32 },
        ],
        Rotation::Down => seq![
            Position { x: -2i32, y: 0i32 },
            Position { x: -1i32, y: 0i32 },
            Position { x: 0i32, y: 0i32 },
            Position { x: 1i32, y: 0i32 },
        ],
        Rotation::Left => seq![
            Position { x: 0i32, y: -1i32 },
            Position { x: 0i32, y: 0i32 },
            Position { x: 0i32, y: 1i32 },
            Position { x: 0i32, y: 2i32 },
        ],
    }
}

pub open spec fn spec_units_t(rotation: Rotation) -> Seq<Position> {
    match rotation {
        Rotation::Up => seq![
            Position { x: 0i32, y: 0i32 },
            Position { x: -1i32, y: 0i32 },
            Position { x: 1i32, y: 0i32 },
            Position { x: 0i32, y: 1i32 },
        ],
        Rotation::Right => seq![
            Position { x: 0i32, y: 0i32 },
            Position { x: 0i32, y: -1i32 },
            Position { x: 1i32, y: 0i32 },
            Position { x: 0i32, y: 1i32 },
        ],
        Rotation::Down => seq![
            Position { x: 0i32, y: 0i32 },
            Position { x: -1i32, y: 0i32 },
            Position { x: 1i32, y: 0i32 },
            Position { x: 0i32, y: -1i32 },
        ],
        Rotation::Left => seq![
            Position { x: 0i32, y: 0i32 },
            Position { x: -1i32, y: 0i32 },
            Position { x: 0i32, y: 1i32 },
            Position { x: 0i32, y: -1i32 },
        ],
    }
}

pub open spec fn spec_units_o(rotation: Rotation) -> Seq<Position> {
    match rotation {
        Rotation::Up => seq![
            Position { x: 0i32, y: 0i32 },
            Position { x: 1i32, y: 0i32 },
            Position { x: 0i32, y: 1i32 },
            Position { x: 1i32, y: 1i32 },
        ],
        Rotation::Right => seq![
            Position { x: 0i32, y: 0i32 },
            Position { x: 1i32, y: 0i32 },
            Position { x: 0i32, y: 1i32 },
            Position { x: 1i32, y: 1i32 },
        ],
        Rotation::Down => seq![
            Position { x: 0i32, y: 0i32 },
            Position { x: 1i32, y: 0i32 },
            Position { x: 0i32, y: 1i32 },
            Position { x: 1i32, y: 1i32 },
        ],
        Rotation::Left => seq![
            Position { x: 0i32, y: 0i32 },
            Position { x: 1i32, y: 0i32 },
            Position { x: 0i32, y: 1i32 },
            Position { x: 1i32, y: 1i32 },
        ],
    }
}

pub open spec fn spec_units_j(rotation: Rotation) -> Seq<Position> {
    match rotation {
        Rotation::Up => seq![
            Position { x: 0i32, y: 0i32 },
            Position { x: -1i32, y: 0i32 },
            Position { x: 1i32, y: 0i32 },
            Position { x: -1i32, y: 1i32 },
        ],
        Rotation::Right => seq![
            Position { x: 0i32, y: -1i32 },
            Position { x: 0i32, y: 0i32 },
            Position { x: 0i32, y: 1i32 },
            Position { x: 1i32, y: 1i32 },
        ],
        Rotation::Down => seq![
            Position { x: 0i32, y: 0i32 },
            Position { x: -1i32, y: 0i32 },
            Position { x: 1i32, y: 0i32 },
            Position { x: 1i32, y: -1i32 },
        ],
        Rotation::Left => seq![
            Position { x: 0i32, y: -1i32 },
            Position { x: 0i32, y: 0i32 },
            Position { x: 0i32, y: 1i32 },
            Position { x: -1i32, y: -1i32 },
        ],
    }
}

pub open spec fn spec_units_l(rotation: Rotation) -> Seq<Position> {
    match rotation {
        Rotation::Up => seq![
            Position { x: 0i32, y: 0i32 },
            Position { x: -1i32, y: 0i32 },
            Position { x: 1i32, y: 0i32 },
            Position { x: 1i32, y: 1i32 },
        ],
        Rotation::Right => seq![
            Position { x: 0i32, y: -1i32 },
            Position { x: 0i32, y: 0i32 },
            Position { x: 0i32, y: 1i32 },
            Position { x: 1i32, y: -1i32 },
        ],
        Rotation::Down => seq![
            Position { x: 0i32, y: 0i32 },
            Position { x: -1i32, y: 0i32 },
            Position { x: 1i32, y: 0i32 },
            Position { x: -1i32, y: -1i32 },
        ],
        Rotation::Left => seq![
            Position { x: 0i32, y: -1i32 },
            Position { x: 0i32, y: 0i32 },
            Position { x: 0i32, y: 1i32 },
            Position { x: -1i32, y: 1i32 },
        ],
    }
}

pub open spec fn spec_units_z(rotation: Rotation) -> Seq<Position> {
    match rotation {
        Rotation::Up => seq![
            Position { x: 0i32, y: 0i32 },
            Position { x: 1i32, y: 0i32 },
            Position { x: -1i32, y: 1i32 },
            Position { x: 0i32, y: 1i32 },
        ],
        Rotation::Right => seq![
            Position { x: 0i32, y: 0i32 },
            Position { x: 0i32, y: -1i32 },
            Position { x: 1i32, y: 0i32 },
            Position { x: 1i32, y: 1i32 },
        ],
        Rotation::Down => seq![
            Position { x: 0i32, y: 0i32 },
            Position { x: -1i32, y: 0i32 },
            Position { x: 1i32, y: -1i32 },
            Position { x: 0i32, y: -1i32 },
        ],
        Rotation::Left => seq![
            Position { x: 0i32, y: 0i32 },
            Position { x: 0i32, y: 1i32 },
            Position { x: -1i32, y: 0i32 },
            Position { x: -1i32, y: -1i32 },
        ],
    }
}

pub open spec fn spec_units_s(rotation: Rotation) -> Seq<Position> {
    match rotation {
        Rotation::Up => seq![
            Position { x: 0i32, y: 0i32 },
            Position { x: -1i32, y: 0i32 },
            Position { x: 0i32, y: 1i32 },
            Position { x: 1i32, y: 1i32 },
        ],
        Rotation::Right => seq![
            Position { x: 0i32, y: 0i32 },
            Position { x: 0i32, y: 1i32 },
            Position { x: 1i32, y: 0i32 },
            Position { x: 1i32, y: -1i32 },
        ],
        Rotation::Down => seq![
            Position { x: 0i32, y: 0i32 },
            Position { x: 1i32, y: 0i32 },
            Position { x: -1i32, y: -1i32 },
            Position { x: 0i32, y: -1i32 },
        ],
        Rotation::Left => seq![
            Position { x: 0i32, y: 0i32 },
            Position { x: 0i32, y: -1i32 },
            Position { x: -1i32, y: 0i32 },
            Position { x: -1i32, y: 1i32 },
        ],
    }
}

/// The SRS unit offsets of each piece type in each rotation.
pub open spec fn srs_units(piece_type: PieceType, rotation: Rotation) -> Seq<Position> {
    match piece_type {
        PieceType::I => spec_units_i(rotation),
        PieceType::T => spec_units_t(rotation),
        PieceType::O => spec_units_o(rotation),
        PieceType::J => spec_units_j(rotation),
        PieceType::L => spec_units_l(rotation),
        PieceType::Z => spec_units_z(rotation),
        PieceType::S => spec_units_s(rotation),
    }
}

pub open spec fn spec_kicks_i(rotation: Rotation) -> Seq<Position> {
    match rotation {
        Rotation::Up => seq![
            Position { x: 0i32, y: 0i32 },
            Position { x: -1i32, y: 0i32 },
            Position { x: 2i32, y: 0i32 },
            Position { x: -1i32, y: 0i32 },
            Position { x: 2i32, y: 0i32 },
        ],
        Rotation::Right => seq![
            Position { x: -1i32, y: 0i32 },
            Position { x: 0i32, y: 0i32 },
            Position { x: 0i32, y: 0i32 },
            Position { x: 0i32, y: 1i32 },
            Position { x: 0i32, y: -2i32 },
        ],
        Rotation::Down => seq![
            Position { x: -1i32, y: 1i32 },
            Position { x: 1i32, y: 1i32 },
            Position { x: -2i32, y: 1i32 },
            Position { x: 1i32, y: 0i32 },
            Position { x: -2i32, y: 0i32 },
        ],
        Rotation::Left => seq![
            Position { x: 0i32, y: 1i32 },
            Position { x: 0i32, y: 1i32 },
            Position { x: 0i32, y: 1i32 },
            Position { x: 0i32, y: -1i32 },
            Position { x: 0i32, y: 2i32 },
        ],
    }
}

pub open spec fn spec_kicks_jlstz(rotation: Rotation) -> Seq<Position> {
    match rotation {
        Rotation::Up => seq![
            Position { x: 0i32, y: 0i32 },
            Position { x: 0i32, y: 0i32 },
            Position { x: 0i32, y: 0i32 },
            Position { x: 0i32, y: 0i32 },
            Position { x: 0i32, y: 0i32 },
        ],
        Rotation::Right => seq![
            Position { x: 0i32, y: 0i32 },
            Position { x: 1i32, y: 0i32 },
            Position { x: 1i32, y: -1i32 },
            Position { x: 0i32, y: 2i32 },
            Position { x: 1i32, y: 2i32 },
        ],
        Rotation::Down => seq![
            Position { x: 0i32, y: 0i32 },
            Position { x: 0i32, y: 0i32 },
            Position { x: 0i32, y: 0i32 },
            Position { x: 0i32, y: 0i32 },
            Position { x: 0i32, y: 0i32 },
        ],
        Rotation::Left => seq![
            Position { x: 0i32, y: 0i32 },
            Position { x: -1i32, y: 0i32 },
            Position { x: -1i32, y: -1i32 },
            Position { x: 0i32, y: 2i32 },
            Position { x: -1i32, y: 2i32 },
        ],
    }
}

pub open spec fn spec_kicks_o(rotation: Rotation) -> Seq<Position> {
    match rotation {
        Rotation::Up => seq![Position { x: 0i32, y: 0i32 }],
        Rotation::Right => seq![Position { x: 0i32, y: 0i32 }],
        Rotation::Down => seq![Position { x: 0i32, y: 0i32 }],
        Rotation::Left => seq![Position { x: 0i32, y: 0i32 }],
    }
}

/// The SRS kick offsets of a piece type in a rotation; a rotation tries the
/// differences of the current and the target rotation's offsets in order.
pub open spec fn srs_kicks(piece_type: PieceType, rotation: Rotation) -> Seq<Position> {
    match piece_type {
        PieceType::I => spec_kicks_i(rotation),
        PieceType::O => spec_kicks_o(rotation),
        _ => spec_kicks_jlstz(rotation),
    }
}

fn units_i(rotation: &Rotation) -> (r: [Position; 4])
    ensures
        r@ == spec_units_i(*rotation),
{
    let r = match rotation {
        Rotation::Up => [
            Position { x: -1, y: 0 },
            Position { x: 0, y: 0 },
            Position { x: 1, y: 0 },
            Position { x: 2, y: 0 },
        ],
        Rotation::Right => [
            Position { x: 0, y: -2 },
            Position { x: 0, y: -1 },
            Position { x: 0, y: 0 },
            Position { x: 0, y: 1 },
        ],
        Rotation::Down => [
            Position { x: -2, y: 0 },
            Position { x: -1, y: 0 },
            Position { x: 0, y: 0 },
            Position { x: 1, y: 0 },
        ],
        Rotation::Left => [
            Position { x: 0, y: -1 },
            Position { x: 0, y: 0 },
            Position { x: 0, y: 1 },
            Position { x: 0, y: 2 },
        ],
    };
    assert(r@ =~= spec_units_i(*rotation));
    r
}

fn units_t(rotation: &Rotation) -> (r: [Position; 4])
    ensures
        r@ == spec_units_t(*rotation),
{
    let r = match rotation {
        Rotation::Up => [
            Position { x: 0, y: 0 },
            Position { x: -1, y: 0 },
            Position { x: 1, y: 0 },
            Position { x: 0, y: 1 },
        ],
        Rotation::Right => [
            Position { x: 0, y: 0 },
            Position { x: 0, y: -1 },
            Position { x: 1, y: 0 },
            Position { x: 0, y: 1 },
        ],
        Rotation::Down => [
            Position { x: 0, y: 0 },
            Position { x: -1, y: 0 },
            Position { x: 1, y: 0 },
            Position { x: 0, y: -1 },
        ],
        Rotation::Left => [
            Position { x: 0, y: 0 },
            Position { x: -1, y: 0 },
            Position { x: 0, y: 1 },
            Position { x: 0, y: -1 },
        ],
    };
    assert(r@ =~= spec_units_t(*rotation));
    r
}

fn units_o(rotation: &Rotation) -> (r: [Position; 4])
    ensures
        r@ == spec_units_o(*rotation),
{
    let r = match rotation {
        Rotation::Up => [
            Position { x: 0, y: 0 },
            Position { x: 1, y: 0 },
            Position { x: 0, y: 1 },
            Position { x: 1, y: 1 },
        ],
        Rotation::Right => [
            Position { x: 0, y: 0 },
            Position { x: 1, y: 0 },
            Position { x: 0, y: 1 },
            Position { x: 1, y: 1 },
        ],
        Rotation::Down => [
            Position { x: 0, y: 0 },
            Position { x: 1, y: 0 },
            Position { x: 0, y: 1 },
            Position { x: 1, y: 1 },
        ],
        Rotation::Left => [
            Position { x: 0, y: 0 },
            Position { x: 1, y: 0 },
            Position { x: 0, y: 1 },
            Position { x: 1, y: 1 },
        ],
    };
    assert(r@ =~= spec_units_o(*rotation));
    r
}

fn units_j(rotation: &Rotation) -> (r: [Position; 4])
    ensures
        r@ == spec_units_j(*rotation),
{
    let r = match rotation {
        Rotation::Up => [
            Position { x: 0, y: 0 },
            Position { x: -1, y: 0 },
            Position { x: 1, y: 0 },
            Position { x: -1, y: 1 },
        ],
        Rotation::Right => [
            Position { x: 0, y: -1 },
            Position { x: 0, y: 0 },
            Position { x: 0, y: 1 },
            Position { x: 1, y: 1 },
        ],
        Rotation::Down => [
            Position { x: 0, y: 0 },
            Position { x: -1, y: 0 },
            Position { x: 1, y: 0 },
            Position { x: 1, y: -1 },
        ],
        Rotation::Left => [
            Position { x: 0, y: -1 },
            Position { x: 0, y: 0 },
            Position { x: 0, y: 1 },
            Position { x: -1, y: -1 },
        ],
    };
    assert(r@ =~= spec_units_j(*rotation));
    r
}

fn units_l(rotation: &Rotation) -> (r: [Position; 4])
    ensures
        r@ == spec_units_l(*rotation),
{
    let r = match rotation {
        Rotation::Up => [
            Position { x: 0, y: 0 },
            Position { x: -1, y: 0 },
            Position { x: 1, y: 0 },
            Position { x: 1, y: 1 },
        ],
        Rotation::Right => [
            Position { x: 0, y: -1 },
            Position { x: 0, y: 0 },
            Position { x: 0, y: 1 },
            Position { x: 1, y: -1 },
        ],
        Rotation::Down => [
            Position { x: 0, y: 0 },
            Position { x: -1, y: 0 },
            Position { x: 1, y: 0 },
            Position { x: -1, y: -1 },
        ],
        Rotation::Left => [
            Position { x: 0, y: -1 },
            Position { x: 0, y: 0 },
            Position { x: 0, y: 1 },
            Position { x: -1, y: 1 },
        ],
    };
    assert(r@ =~= spec_units_l(*rotation));
    r
}

fn units_z(rotation: &Rotation) -> (r: [Position; 4])
    ensures
        r@ == spec_units_z(*rotation),
{
    let r = match rotation {
        Rotation::Up => [
            Position { x: 0, y: 0 },
            Position { x: 1, y: 0 },
            Position { x: -1, y: 1 },
            Position { x: 0, y: 1 },
        ],
        Rotation::Right => [
            Position { x: 0, y: 0 },
            Position { x: 0, y: -1 },
            Position { x: 1, y: 0 },
            Position { x: 1, y: 1 },
        ],
        Rotation::Down => [
            Position { x: 0, y: 0 },
            Position { x: -1, y: 0 },
            Position { x: 1, y: -1 },
            Position { x: 0, y: -1 },
        ],
        Rotation::Left => [
            Position { x: 0, y: 0 },
            Position { x: 0, y: 1 },
            Position { x: -1, y: 0 },
            Position { x: -1, y: -1 },
        ],
    };
    assert(r@ =~= spec_units_z(*rotation));
    r
}

fn units_s(rotation: &Rotation) -> (r: [Position; 4])
    ensures
        r@ == spec_units_s(*rotation),
{
    let r = match rotation {
        Rotation::Up => [
            Position { x: 0, y: 0 },
            Position { x: -1, y: 0 },
            Position { x: 0, y: 1 },
            Position { x: 1, y: 1 },
        ],
        Rotation::Right => [
            Position { x: 0, y: 0 },
            Position { x: 0, y: 1 },
            Position { x: 1, y: 0 },
            Position { x: 1, y: -1 },
        ],
        Rotation::Down => [
            Position { x: 0, y: 0 },
            Position { x: 1, y: 0 },
            Position { x: -1, y: -1 },
            Position { x: 0, y: -1 },
        ],
        Rotation::Left => [
            Position { x: 0, y: 0 },
            Position { x: 0, y: -1 },
            Position { x: -1, y: 0 },
            Position { x: -1, y: 1 },
        ],
    };
    assert(r@ =~= spec_units_s(*rotation));
    r
}

fn kick_offsets(piece_type: &PieceType, rotation: &Rotation) -> (r: Vec<Position>)
    ensures
        r@ == srs_kicks(*piece_type, *rotation),
{
    let r = match piece_type {
        PieceType::I => match rotation {
            Rotation::Up => vec![
                Position { x: 0, y: 0 },
                Position { x: -1, y: 0 },
                Position { x: 2, y: 0 },
                Position { x: -1, y: 0 },
                Position { x: 2, y: 0 },
            ],
            Rotation::Right => vec![
                Position { x: -1, y: 0 },
                Position { x: 0, y: 0 },
                Position { x: 0, y: 0 },
                Position { x: 0, y: 1 },
                Position { x: 0, y: -2 },
            ],
            Rotation::Down => vec![
                Position { x: -1, y: 1 },
                Position { x: 1, y: 1 },
                Position { x: -2, y: 1 },
                Position { x: 1, y: 0 },
                Position { x: -2, y: 0 },
            ],
            Rotation::Left => vec![
                Position { x: 0, y: 1 },
                Position { x: 0, y: 1 },
                Position { x: 0, y: 1 },
                Position { x: 0, y: -1 },
                Position { x: 0, y: 2 },
            ],
        },
        PieceType::O => match rotation {
            Rotation::Up => vec![Position { x: 0, y: 0 }],
            Rotation::Right => vec![Position { x: 0, y: 0 }],
            Rotation::Down => vec![Position { x: 0, y: 0 }],
            Rotation::Left => vec![Position { x: 0, y: 0 }],
        },
        PieceType::T | PieceType::Z | PieceType::S | PieceType::L | PieceType::J => match rotation {
            Rotation::Up => vec![
                Position { x: 0, y: 0 },
                Position { x: 0, y: 0 },
                Position { x: 0, y: 0 },
                Position { x: 0, y: 0 },
                Position { x: 0, y: 0 },
            ],
            Rotation::Right => vec![
                Position { x: 0, y: 0 },
                Position { x: 1, y: 0 },
                Position { x: 1, y: -1 },
                Position { x: 0, y: 2 },
                Position { x: 1, y: 2 },
            ],
            Rotation::Down => vec![
                Position { x: 0, y: 0 },
                Position { x: 0, y: 0 },
                Position { x: 0, y: 0 },
                Position { x: 0, y: 0 },
                Position { x: 0, y: 0 },
            ],
            Rotation::Left => vec![
                Position { x: 0, y: 0 },
                Position { x: -1, y: 0 },
                Position { x: -1, y: -1 },
                Position { x: 0, y: 2 },
                Position { x: -1, y: 2 },
            ],
        },
    };
    assert(r@ =~= srs_kicks(*piece_type, *rotation));
    r
}

/// Trying kicks from index `i` on: the first candidate anchor at which the
/// turned piece is free, as the turned piece.
pub open spec fn first_free_kick(
    rows: Seq<[bool; 10]>,
    piece: Piece,
    target: Rotation,
    i: int,
) -> Option<Piece>
    decreases 5 - i,
{
    let a = srs_kicks(piece.piece_type, piece.rotation);
    let b = srs_kicks(piece.piece_type, target);
    if i < 0 || i >= a.len() || i >= b.len() {
        None
    } else {
        let x = piece.position.x + a[i].x - b[i].x;
        let y = piece.position.y + a[i].y - b[i].y;
        if !obstructed(rows, srs_units(piece.piece_type, target), x, y) {
            Some(
                Piece {
                    piece_type: piece.piece_type,
                    rotation: target,
                    position: Position { x: x as i32, y: y as i32 },
                },
            )
        } else {
            first_free_kick(rows, piece, target, i + 1)
        }
    }
}

/// SRS rotation: the first kick candidate, in table order, at which the
/// turned piece is free; none when every candidate is obstructed.
pub open spec fn srs_rotation(rows: Seq<[bool; 10]>, piece: Piece, direction: Direction) -> Option<Piece> {
    first_free_kick(rows, piece, rotated(piece.rotation, direction), 0)
}

/// The anchor that kick `i` of turning `piece` to `target` tries.
pub open spec fn kick_candidate(piece: Piece, target: Rotation, i: int) -> Position {
    let a = srs_kicks(piece.piece_type, piece.rotation);
    let b = srs_kicks(piece.piece_type, target);
    Position {
        x: (piece.position.x + a[i].x - b[i].x) as i32,
        y: (piece.position.y + a[i].y - b[i].y) as i32,
    }
}

/// When kicks 0 and 1 of a rotation are obstructed and kick 2 is free, the
/// rotation succeeds at kick 2: not at an earlier candidate, and not failing.
pub proof fn lemma_rotation_takes_third_kick(rows: Seq<[bool; 10]>, piece: Piece, direction: Direction)
    requires
        piece.piece_type != PieceType::O,
        i32::MIN + 4 <= piece.position.x <= i32::MAX - 4,
        i32::MIN + 4 <= piece.position.y <= i32::MAX - 4,
        ({
            let target = rotated(piece.rotation, direction);
            let units = srs_units(piece.piece_type, target);
            let c0 = kick_candidate(piece, target, 0);
            let c1 = kick_candidate(piece, target, 1);
            let c2 = kick_candidate(piece, target, 2);
            &&& obstructed(rows, units, c0.x as int, c0.y as int)
            &&& obstructed(rows, units, c1.x as int, c1.y as int)
            &&& !obstructed(rows, units, c2.x as int, c2.y as int)
        }),
    ensures
        srs_rotation(rows, piece, direction) == Some(
            Piece {
                piece_type: piece.piece_type,
                rotation: rotated(piece.rotation, direction),
                position: kick_candidate(piece, rotated(piece.rotation, direction), 2),
            },
        ),
{
    let target = rotated(piece.rotation, direction);
    lemma_srs_kicks_len(piece.piece_type, piece.rotation);
    lemma_srs_kicks_len(piece.piece_type, target);
    let a = srs_kicks(piece.piece_type, piece.rotation);
    let b = srs_kicks(piece.piece_type, target);
    assert(-2 <= a[0].x <= 2 && -2 <= b[0].x <= 2 && -2 <= a[0].y <= 2 && -2 <= b[0].y <= 2);
    assert(-2 <= a[1].x <= 2 && -2 <= b[1].x <= 2 && -2 <= a[1].y <= 2 && -2 <= b[1].y <= 2);
    assert(-2 <= a[2].x <= 2 && -2 <= b[2].x <= 2 && -2 <= a[2].y <= 2 && -2 <= b[2].y <= 2);
    reveal_with_fuel(first_free_kick, 3);
}

proof fn lemma_srs_kicks_len(piece_type: PieceType, rotation: Rotation)
    ensures
        srs_kicks(piece_type, rotation).len() <= 5,
        piece_type != PieceType::O ==> srs_kicks(piece_type, rotation).len() == 5,
        piece_type == PieceType::O ==> srs_kicks(piece_type, rotation).len() == 1,
        forall|i: int|
            0 <= i < srs_kicks(piece_type, rotation).len() ==> -2 <= (#[trigger] srs_kicks(
                piece_type,
                rotation,
            )[i]).x <= 2
            && -2 <= srs_kicks(piece_type, rotation)[i].y <= 2,
{
}

proof fn lemma_srs_units_bounded(piece_type: PieceType, rotation: Rotation)
    ensures
        srs_units(piece_type, rotation).len() == 4,
        units_bounded(srs_units(piece_type, rotation)),
{
}

/// The Super Rotation System piece set.
pub struct SrsPieceSet {}

impl SrsPieceSet {
    pub fn new() -> (r: Self) {
        SrsPieceSet {}
    }
}

impl PieceSet for SrsPieceSet {
    open spec fn unit_offsets(&self, piece_type: PieceType, rotation: Rotation) -> Seq<Position> {
        srs_units(piece_type, rotation)
    }

    open spec fn rotation_result(
        &self,
        rows: Seq<[bool; 10]>,
        piece: Piece,
        direction: Direction,
    ) -> Option<Piece> {
        srs_rotation(rows, piece, direction)
    }

    proof fn lemma_unit_offsets(&self, piece_type: PieceType, rotation: Rotation) {
        lemma_srs_units_bounded(piece_type, rotation);
    }

    fn units(&self, piece_type: &PieceType, rotation: &Rotation) -> (r: [Position; 4]) {
        proof {
            lemma_srs_units_bounded(*piece_type, *rotation);
        }
        match piece_type {
            PieceType::I => units_i(rotation),
            PieceType::T => units_t(rotation),
            PieceType::O => units_o(rotation),
            PieceType::J => units_j(rotation),
            PieceType::L => units_l(rotation),
            PieceType::Z => units_z(rotation),
            PieceType::S => units_s(rotation),
        }
    }

    fn rotate_piece(&self, board: &Board, piece: &Piece, direction: Direction) -> (r: Option<Piece>) {
        let target_rotation = piece.rotation.rotate(direction);
        let kick_offsets_a = kick_offsets(&piece.piece_type, &piece.rotation);
        let kick_offsets_b = kick_offsets(&piece.piece_type, &target_rotation);
        let units = self.units(&piece.piece_type, &target_rotation);
        proof {
            lemma_srs_kicks_len(piece.piece_type, piece.rotation);
            lemma_srs_kicks_len(piece.piece_type, target_rotation);
        }
        let mut i: usize = 0;
        while i < kick_offsets_a.len() && i < kick_offsets_b.len()
            invariant
                board.wf(),
                kick_offsets_a@ == srs_kicks(piece.piece_type, piece.rotation),
                kick_offsets_b@ == srs_kicks(piece.piece_type, target_rotation),
                target_rotation == rotated(piece.rotation, direction),
                units@ == srs_units(piece.piece_type, target_rotation),
                kick_offsets_a@.len() <= 5,
                forall|j: int| 0 <= j < kick_offsets_a@.len() ==> -2 <= (#[trigger] kick_offsets_a@[j]).x <= 2
                    && -2 <= kick_offsets_a@[j].y <= 2,
                forall|j: int| 0 <= j < kick_offsets_b@.len() ==> -2 <= (#[trigger] kick_offsets_b@[j]).x <= 2
                    && -2 <= kick_offsets_b@[j].y <= 2,
                first_free_kick(board.rows@, *piece, target_rotation, 0) == first_free_kick(
                    board.rows@,
                    *piece,
                    target_rotation,
                    i as int,
                ),
            decreases 5 - i,
        {
            let a = kick_offsets_a[i];
            let b = kick_offsets_b[i];
            let x = piece.position.x as i64 + a.x as i64 - b.x as i64;
            let y = piece.position.y as i64 + a.y as i64 - b.y as i64;
            if !board.obstructed_at(&units, x, y) {
                proof {
                    lemma_srs_units_bounded(piece.piece_type, target_rotation);
                    assert(units@[0] == srs_units(piece.piece_type, target_rotation)[0]);
                    assert(!crate::board::cell_filled(board.rows@, x + units@[0].x, y + units@[0].y));
                }
                return Some(
                    Piece {
                        piece_type: piece.piece_type,
                        rotation: target_rotation,
                        position: Position { x: x as i32, y: y as i32 },
                    },
                );
            }
            i += 1;
        }
        None
    }
}

} // verus!
