//! The frame snapshot handed to renderers, and the renderer interface.

use vstd::prelude::*;

use crate::game::Message;
use crate::piece::{Piece, PieceSet, PieceType};
use crate::position::Position;

verus! {

/// What a renderer is shown for one frame.
pub struct RenderState<'a, TPieceSet: PieceSet> {
    pub board_state: Vec<[bool; 10]>,
    pub piece_set: &'a TPieceSet,
    pub active_piece: Option<Piece>,
    pub ghost_piece_position: Option<Position>,
    pub hold_piece_type: Option<PieceType>,
    pub next_piece_types: Vec<PieceType>,
    pub paused: bool,
    pub messages: Vec<Message>,
}

impl<'a, TPieceSet: PieceSet> RenderState<'a, TPieceSet> {
    pub fn new(
        board_state: Vec<[bool; 10]>,
        piece_set: &'a TPieceSet,
        active_piece: Option<Piece>,
        ghost_piece_position: Option<Position>,
        hold_piece_type: Option<PieceType>,
        next_piece_types: Vec<PieceType>,
        paused: bool,
        messages: Vec<Message>,
    ) -> (r: Self)
        ensures
            r.board_state@ == board_state@,
            r.piece_set == piece_set,
            r.active_piece == active_piece,
            r.ghost_piece_position == ghost_piece_position,
            r.hold_piece_type == hold_piece_type,
            r.next_piece_types@ == next_piece_types@,
            r.paused == paused,
            r.messages@ == messages@,
    {
        Self {
            board_state,
            piece_set,
            active_piece,
            ghost_piece_position,
            hold_piece_type,
            next_piece_types,
            paused,
            messages,
        }
    }
}

/// Draws frames; `delta_time` is the frame's length in microseconds.
pub trait Renderer<TPieceSet: PieceSet> {
    fn init(&mut self);

    fn render(&mut self, state: RenderState<TPieceSet>, delta_time: u32);
}

} // verus!
