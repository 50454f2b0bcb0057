//! The game engine: hold, gravity, messages and the per-frame state machine.

use vstd::prelude::*;

use crate::board::{
    cell_filled, clear_full_rows, full_row_count, is_cast_of, mark_cells, obstructed, units_in_bounds,
    Board,
};
use crate::input::{Action, InputActions};
use crate::piece::{Direction, Piece, PieceSet, PieceType, Rotation};
use crate::position::Position;
use crate::queue::Queue;
use crate::random::{copy_values, Random};
use crate::renderer::{RenderState, Renderer};
use crate::twist::TwistDetector;

verus! {

/// The hold slot: one piece type can be set aside, once per locked piece.
#[derive(Clone, Copy, Debug, PartialEq, Eq, Structural)]
pub struct HoldFeature {
    pub can_hold: bool,
    pub hold_piece_type: Option<PieceType>,
}

/// Holding `piece_type`: when allowed, it takes the slot, holding is used up,
/// and the type that was in the slot (maybe none) is handed out to spawn;
/// otherwise nothing changes and nothing is handed out.
pub open spec fn hold_step(h: HoldFeature, piece_type: PieceType) -> (
    HoldFeature,
    Option<Option<PieceType>>,
) {
    if h.can_hold {
        (HoldFeature { can_hold: false, hold_piece_type: Some(piece_type) }, Some(h.hold_piece_type))
    } else {
        (h, None)
    }
}

impl HoldFeature {
    pub fn new() -> (r: Self)
        ensures
            r.can_hold,
            r.hold_piece_type is None,
    {
        Self { can_hold: true, hold_piece_type: None }
    }

    pub fn reset(&mut self)
        ensures
            final(self).can_hold,
            final(self).hold_piece_type == old(self).hold_piece_type,
    {
        self.can_hold = true;
    }

    pub fn hold(&mut self, piece_type: PieceType) -> (r: Option<Option<PieceType>>)
        ensures
            (*final(self), r) == hold_step(*old(self), piece_type),
    {
        if self.can_hold {
            let spawn_piece_type = self.hold_piece_type;
            self.hold_piece_type = Some(piece_type);
            self.can_hold = false;
            Some(spawn_piece_type)
        } else {
            None
        }
    }
}

/// The first hold of a piece type with an empty slot hands out nothing to
/// spawn from (the next piece comes from the queue) and puts the type in the
/// slot; a second hold before the next lock changes nothing.
pub proof fn lemma_hold_then_hold_again(h: HoldFeature, first: PieceType, second: PieceType)
    requires
        h.can_hold,
        h.hold_piece_type is None,
    ensures
        hold_step(h, first).1 == Some(None::<PieceType>),
        hold_step(h, first).0.hold_piece_type == Some(first),
        hold_step(hold_step(h, first).0, second) == (hold_step(h, first).0, None::<Option<PieceType>>),
{
}

/// Millionths of a line in one line of drop progress.
pub const PROGRESS_PER_LINE: u64 = 1_000_000;

/// Gravity: accumulates drop progress and hands out whole lines.
pub struct GravityFeature {
    /// Progress towards the next line, in millionths of a line.
    pub drop_progress: u64,
    pub lines_per_second: u32,
}

impl GravityFeature {
    pub open spec fn wf(&self) -> bool {
        &&& self.lines_per_second > 0
        &&& self.drop_progress < PROGRESS_PER_LINE
    }

    /// Gravity at a positive speed, in lines per second.
    pub fn new(lines_per_second: u32) -> (r: Self)
        requires
            lines_per_second > 0,
        ensures
            r.wf(),
            r.drop_progress == 0,
            r.lines_per_second == lines_per_second,
    {
        Self { drop_progress: 0, lines_per_second }
    }

    /// Changes the speed; progress already made towards the next line is
    /// kept, so a drop under way finishes as far along as it was.
    pub fn set_lines_per_second(&mut self, lines_per_second: u32)
        requires
            lines_per_second > 0,
        ensures
            final(self).drop_progress == old(self).drop_progress,
            final(self).lines_per_second == lines_per_second,
    {
        self.lines_per_second = lines_per_second;
    }

    /// Advances by `delta_time` microseconds; returns the whole lines to drop
    /// and keeps the fraction left over.
    pub fn update_drop(&mut self, delta_time: u32) -> (r: u64)
        requires
            old(self).wf(),
        ensures
            final(self).wf(),
            final(self).lines_per_second == old(self).lines_per_second,
            r == (old(self).drop_progress + delta_time * old(self).lines_per_second) / (
            PROGRESS_PER_LINE as int),
            final(self).drop_progress == (old(self).drop_progress + delta_time
                * old(self).lines_per_second) % (PROGRESS_PER_LINE as int),
    {
        assert((delta_time as int) * (self.lines_per_second as int) <= 0xffff_fffe_0000_0001)
            by (nonlinear_arith)
            requires
                delta_time <= 0xffff_ffff,
                self.lines_per_second <= 0xffff_ffff,
        ;
        let gained = (delta_time as u64) * (self.lines_per_second as u64);
        let total = self.drop_progress + gained;
        self.drop_progress = total % PROGRESS_PER_LINE;
        total / PROGRESS_PER_LINE
    }
}

/// An event for the player, produced when a piece locks.
#[derive(Clone, Copy, Debug, PartialEq, Eq, Structural)]
pub enum Message {
    Single,
    Double,
    Triple,
    Quad,
    Combo(i32),
    Twist(PieceType),
    TwistSingle(PieceType),
    TwistDouble(PieceType),
    TwistTriple(PieceType),
    AllClear,
}

/// The message for clearing `lines` rows, as a twist or not; a quad is never
/// a twist, and other counts give none.
pub open spec fn line_clear_messages(lines: int, twist: bool, piece_type: PieceType) -> Seq<Message> {
    if lines == 0 {
        if twist {
            seq![Message::Twist(piece_type)]
        } else {
            seq![]
        }
    } else if lines == 1 {
        seq![if twist { Message::TwistSingle(piece_type) } else { Message::Single }]
    } else if lines == 2 {
        seq![if twist { Message::TwistDouble(piece_type) } else { Message::Double }]
    } else if lines == 3 {
        seq![if twist { Message::TwistTriple(piece_type) } else { Message::Triple }]
    } else if lines == 4 {
        seq![Message::Quad]
    } else {
        seq![]
    }
}

/// All messages of one lock: the line-clear message, then `AllClear` when
/// the board is empty afterwards.
pub open spec fn lock_messages(lines: int, twist: bool, piece_type: PieceType, all_clear: bool) -> Seq<
    Message,
> {
    line_clear_messages(lines, twist, piece_type) + if all_clear {
        seq![Message::AllClear]
    } else {
        seq![]
    }
}

/// Clearing four rows gives exactly one `Quad`, whether or not the piece
/// was a twist, followed only by `AllClear` when the board is empty.
pub proof fn lemma_quad_message(twist: bool, piece_type: PieceType, all_clear: bool)
    ensures
        lock_messages(4, twist, piece_type, all_clear) == if all_clear {
            seq![Message::Quad, Message::AllClear]
        } else {
            seq![Message::Quad]
        },
{
    assert(lock_messages(4, twist, piece_type, all_clear) =~= if all_clear {
        seq![Message::Quad, Message::AllClear]
    } else {
        seq![Message::Quad]
    });
}

/// A lock that leaves the board empty ends with `AllClear`, after whatever
/// line-clear message it also gives.
pub proof fn lemma_all_clear_message(lines: int, twist: bool, piece_type: PieceType)
    ensures
        lock_messages(lines, twist, piece_type, true) == line_clear_messages(lines, twist, piece_type)
            + seq![Message::AllClear],
        lock_messages(lines, twist, piece_type, true).last() == Message::AllClear,
{
}

/// A new piece of the given type at the spawn anchor, column 4, row 19.
pub open spec fn spawned(piece_type: PieceType) -> Piece {
    Piece { piece_type, rotation: Rotation::Up, position: Position { x: 4i32, y: 19i32 } }
}

pub open spec fn down() -> Position {
    Position { x: 0i32, y: -1i32 }
}

/// `piece` moved by `(dx, dy)`.
pub open spec fn moved(piece: Piece, dx: int, dy: int) -> Piece {
    Piece {
        position: Position { x: (piece.position.x + dx) as i32, y: (piece.position.y + dy) as i32 },
        ..piece
    }
}

/// The game engine: board, active piece, ghost, queue, hold, gravity and the
/// messages waiting for the next render.
pub struct Rustris<
    TPieceSet: PieceSet,
    TRandom: Random<PieceType>,
    TInputActions: InputActions,
    TRenderer: Renderer<TPieceSet>,
    TTwistDetector: TwistDetector<TPieceSet>,
> {
    board: Board,
    piece_set: TPieceSet,
    active_piece: Option<Piece>,
    ghost_piece_position: Option<Position>,
    queue: Queue<PieceType, TRandom>,
    input_actions: TInputActions,
    hold_feature: HoldFeature,
    gravity_feature: GravityFeature,
    twist_detector: TTwistDetector,
    renderer: TRenderer,
    paused: bool,
    messages: Vec<Message>,
}

impl<
    TPieceSet: PieceSet,
    TRandom: Random<PieceType>,
    TInputActions: InputActions,
    TRenderer: Renderer<TPieceSet>,
    TTwistDetector: TwistDetector<TPieceSet>,
> Rustris<TPieceSet, TRandom, TInputActions, TRenderer, TTwistDetector> {
    pub closed spec fn rows(&self) -> Seq<[bool; 10]> {
        self.board.rows@
    }

    pub closed spec fn board_view(&self) -> Board {
        self.board
    }

    pub closed spec fn pieces(&self) -> TPieceSet {
        self.piece_set
    }

    pub closed spec fn translator(&self) -> TInputActions {
        self.input_actions
    }

    pub closed spec fn twist(&self) -> TTwistDetector {
        self.twist_detector
    }

    pub closed spec fn active(&self) -> Option<Piece> {
        self.active_piece
    }

    pub closed spec fn ghost(&self) -> Option<Position> {
        self.ghost_piece_position
    }

    pub closed spec fn queue_items(&self) -> Seq<PieceType> {
        self.queue.items()
    }

    pub closed spec fn queue_capacity(&self) -> nat {
        self.queue.capacity()
    }

    pub closed spec fn hold(&self) -> HoldFeature {
        self.hold_feature
    }

    pub closed spec fn drop_progress(&self) -> int {
        self.gravity_feature.drop_progress as int
    }

    pub closed spec fn lines_per_second(&self) -> int {
        self.gravity_feature.lines_per_second as int
    }

    pub closed spec fn is_paused(&self) -> bool {
        self.paused
    }

    pub closed spec fn messages(&self) -> Seq<Message> {
        self.messages@
    }

    /// The unit offsets of `piece` in this engine's piece set.
    pub open spec fn units_of(&self, piece: Piece) -> Seq<Position> {
        self.pieces().unit_offsets(piece.piece_type, piece.rotation)
    }

    /// The ghost is where the active piece would land if dropped now.
    pub open spec fn ghost_matches(&self, active: Option<Piece>, ghost: Option<Position>) -> bool {
        match active {
            Some(p) => ghost matches Some(g) && is_cast_of(
                self.rows(),
                self.units_of(p),
                p.position,
                down(),
                g,
            ),
            None => ghost is None,
        }
    }

    pub closed spec fn core_wf(&self) -> bool {
        &&& self.board.wf()
        &&& self.queue.wf()
        &&& self.queue.capacity() > 0
        &&& self.input_actions.inv()
        &&& self.gravity_feature.wf()
    }

    pub open spec fn wf(&self) -> bool {
        &&& self.core_wf()
        &&& self.ghost_matches(self.active(), self.ghost())
    }

    /// Where `piece` lands when dropped straight down.
    fn cast_down(&self, piece: Piece) -> (r: Position)
        requires
            self.board.wf(),
        ensures
            is_cast_of(self.rows(), self.units_of(piece), piece.position, down(), r),
    {
        let units = self.piece_set.units(&piece.piece_type, &piece.rotation);
        proof {
            self.piece_set.lemma_unit_offsets(piece.piece_type, piece.rotation);
        }
        self.board.piece_cast(units, piece.position, Position::down())
    }

    fn ghost_of(&self, active: Option<Piece>) -> (r: Option<Position>)
        requires
            self.board.wf(),
        ensures
            self.ghost_matches(active, r),
    {
        match active {
            Some(p) => Some(self.cast_down(p)),
            None => None,
        }
    }

    /// Puts a new active piece at the spawn anchor: of the given type, or else
    /// the next type from the queue. The ghost follows it.
    fn spawn_piece(&mut self, piece_type: Option<PieceType>)
        requires
            old(self).core_wf(),
        ensures
            final(self).wf(),
            final(self).board == old(self).board,
            final(self).piece_set == old(self).piece_set,
            final(self).twist_detector == old(self).twist_detector,
            final(self).input_actions == old(self).input_actions,
            final(self).renderer == old(self).renderer,
            final(self).hold_feature == old(self).hold_feature,
            final(self).gravity_feature == old(self).gravity_feature,
            final(self).paused == old(self).paused,
            final(self).messages == old(self).messages,
            final(self).queue.capacity() == old(self).queue.capacity(),
            final(self).active_piece matches Some(p) && p == spawned(p.piece_type),
            piece_type matches Some(t) ==> final(self).active_piece == Some(spawned(t)) && final(self).queue
                == old(self).queue,
            piece_type is None ==> Self::drew_from_queue(
                old(self).queue.items(),
                final(self).queue.items(),
                final(self).queue.capacity(),
                final(self).active_piece->0.piece_type,
            ),
    {
        let t = match piece_type {
            Some(t) => t,
            None => self.queue.next(),
        };
        self.active_piece = Some(
            Piece { piece_type: t, rotation: Rotation::Up, position: Position::new(4, 19) },
        );
        self.ghost_piece_position = self.ghost_of(self.active_piece);
    }

    /// `drawn` came from the front of a queue that held `before` and holds
    /// `after` now: the rest stays in order and the queue is full again.
    pub open spec fn drew_from_queue(
        before: Seq<PieceType>,
        after: Seq<PieceType>,
        capacity: nat,
        drawn: PieceType,
    ) -> bool {
        &&& after.len() == capacity
        &&& before.len() > 0 ==> drawn == before[0] && after.subrange(0, before.len() - 1)
            == before.drop_first()
    }

    /// One hold: with no active piece nothing changes. Otherwise the hold
    /// slot steps by `hold_step`; when a type is handed out it spawns, and
    /// when an empty slot is handed out the next piece comes from the queue;
    /// when holding is not allowed the active piece and the queue stay.
    pub open spec fn hold_transition(&self, after: &Self) -> bool {
        match self.active() {
            None => after.hold() == self.hold() && after.active() == self.active()
                && after.queue_items() == self.queue_items(),
            Some(p) => {
                let (h, handed) = hold_step(self.hold(), p.piece_type);
                &&& after.hold() == h
                &&& match handed {
                    None => after.active() == self.active() && after.queue_items()
                        == self.queue_items(),
                    Some(Some(t)) => after.active() == Some(spawned(t)) && after.queue_items()
                        == self.queue_items(),
                    Some(None) => after.active() matches Some(q) && q == spawned(q.piece_type)
                        && Self::drew_from_queue(
                        self.queue_items(),
                        after.queue_items(),
                        after.queue_capacity(),
                        q.piece_type,
                    ),
                }
            },
        }
    }

    /// The settings that no action changes.
    pub open spec fn keeps_settings(&self, after: &Self) -> bool {
        &&& after.pieces() == self.pieces()
        &&& after.twist() == self.twist()
        &&& after.queue_capacity() == self.queue_capacity()
        &&& after.is_paused() == self.is_paused()
    }

    /// Everything an action can touch is unchanged, except perhaps the
    /// active piece.
    pub open spec fn same_but_active(&self, after: &Self) -> bool {
        &&& self.keeps_settings(after)
        &&& after.rows() == self.rows()
        &&& after.queue_items() == self.queue_items()
        &&& after.hold() == self.hold()
        &&& after.drop_progress() == self.drop_progress()
        &&& after.lines_per_second() == self.lines_per_second()
        &&& after.messages() == self.messages()
    }

    /// The active piece after trying to move it by `(dx, dy)`.
    pub open spec fn moved_by(&self, dx: int, dy: int) -> Option<Piece> {
        match self.active() {
            Some(p) => if !obstructed(
                self.rows(),
                self.units_of(p),
                p.position.x + dx,
                p.position.y + dy,
            ) {
                Some(moved(p, dx, dy))
            } else {
                Some(p)
            },
            None => None,
        }
    }

    /// The active piece after trying to turn it.
    pub open spec fn turned(&self, direction: Direction) -> Option<Piece> {
        match self.active() {
            Some(p) => match self.pieces().rotation_result(self.rows(), p, direction) {
                Some(q) => Some(q),
                None => Some(p),
            },
            None => None,
        }
    }

    /// Locking `p` with its anchor at `g`: the cells are filled and full rows
    /// cleared, the lock's messages queued, holding allowed again and the
    /// next piece drawn from the queue. A piece not wholly on the board stays
    /// where it is, unlocked.
    pub open spec fn locks_at(&self, after: &Self, p: Piece, g: Position) -> bool {
        let landed = Piece { position: g, ..p };
        if units_in_bounds(self.units_of(p), g.x as int, g.y as int) {
            let marked = mark_cells(self.rows(), self.units_of(p), g.x as int, g.y as int, 4);
            &&& after.rows() == clear_full_rows(marked)
            &&& after.messages() == self.messages() + lock_messages(
                full_row_count(marked),
                self.twist().detects(self.rows(), self.pieces(), landed),
                p.piece_type,
                after.board_view().all_clear(),
            )
            &&& after.hold() == (HoldFeature { can_hold: true, ..self.hold() })
            &&& after.active() matches Some(q) && q == spawned(q.piece_type) && Self::drew_from_queue(
                self.queue_items(),
                after.queue_items(),
                after.queue_capacity(),
                q.piece_type,
            )
        } else {
            &&& after.rows() == self.rows()
            &&& after.messages() == self.messages()
            &&& after.hold() == self.hold()
            &&& after.queue_items() == self.queue_items()
            &&& after.active() == Some(landed)
        }
    }

    /// A hard drop locks the active piece at its ghost position.
    pub open spec fn hard_drop_transition(&self, after: &Self) -> bool {
        &&& self.keeps_settings(after)
        &&& after.drop_progress() == self.drop_progress()
        &&& after.lines_per_second() == self.lines_per_second()
        &&& match (self.active(), self.ghost()) {
            (Some(p), Some(g)) => self.locks_at(after, p, g),
            _ => self.same_but_active(after) && after.active() == self.active(),
        }
    }

    /// Gravity over `delta_time` microseconds: drop progress grows by the
    /// time times the speed; the whole lines in it move the active piece down
    /// if it can go that far, and the fraction is kept. Without an active
    /// piece gravity waits.
    pub open spec fn gravity_transition(&self, after: &Self, delta_time: int) -> bool {
        &&& self.keeps_settings(after)
        &&& after.rows() == self.rows()
        &&& after.queue_items() == self.queue_items()
        &&& after.hold() == self.hold()
        &&& after.messages() == self.messages()
        &&& after.lines_per_second() == self.lines_per_second()
        &&& match self.active() {
            Some(p) => {
                let total = self.drop_progress() + delta_time * self.lines_per_second();
                let lines = total / (PROGRESS_PER_LINE as int);
                &&& after.drop_progress() == total % (PROGRESS_PER_LINE as int)
                &&& after.active() == if lines > 0 && !obstructed(
                    self.rows(),
                    self.units_of(p),
                    p.position.x as int,
                    p.position.y - lines,
                ) {
                    Some(moved(p, 0, -lines))
                } else {
                    Some(p)
                }
            },
            None => after.drop_progress() == self.drop_progress() && after.active() == self.active(),
        }
    }

    /// Setting the gravity speed keeps the progress towards the next line.
    pub open spec fn speed_transition(&self, after: &Self, lines_per_second: int) -> bool {
        &&& self.keeps_settings(after)
        &&& after.rows() == self.rows()
        &&& after.active() == self.active()
        &&& after.queue_items() == self.queue_items()
        &&& after.hold() == self.hold()
        &&& after.messages() == self.messages()
        &&& after.drop_progress() == self.drop_progress()
        &&& after.lines_per_second() == lines_per_second
    }

    /// What applying `action` does, from `self` to `after`.
    pub open spec fn step(&self, after: &Self, action: Action) -> bool {
        match action {
            Action::MoveLeft => self.same_but_active(after) && after.active() == self.moved_by(-1, 0),
            Action::MoveRight => self.same_but_active(after) && after.active() == self.moved_by(1, 0),
            Action::RotateLeft => self.same_but_active(after) && after.active() == self.turned(
                Direction::CCW,
            ),
            Action::RotateRight => self.same_but_active(after) && after.active() == self.turned(
                Direction::CW,
            ),
            Action::Hold => {
                &&& self.keeps_settings(after)
                &&& after.rows() == self.rows()
                &&& after.drop_progress() == self.drop_progress()
                &&& after.lines_per_second() == self.lines_per_second()
                &&& after.messages() == self.messages()
                &&& self.hold_transition(after)
            },
            Action::HardDrop => self.hard_drop_transition(after),
            Action::SoftDropStarted => self.speed_transition(after, 50),
            Action::SoftDropStopped => self.speed_transition(after, 1),
            Action::Pause => self.same_but_active(after) && after.active() == self.active(),
        }
    }

    /// Action `j` takes state `j` to state `j + 1`.
    pub open spec fn link(states: Seq<Self>, actions: Seq<Action>, j: int) -> bool {
        states[j].step(&states[j + 1], actions[j])
    }

    /// `states` are the states passed through while applying `actions` in
    /// order.
    pub open spec fn chain(states: Seq<Self>, actions: Seq<Action>) -> bool {
        &&& states.len() == actions.len() + 1
        &&& forall|j: int| 0 <= j < actions.len() ==> #[trigger] Self::link(states, actions, j)
    }

    /// Moves the active piece by `(dx, dy)` when nothing is in the way.
    fn move_active_piece(&mut self, dx: i64, dy: i64)
        requires
            old(self).wf(),
            -0x100_0000_0000 <= dx <= 0x100_0000_0000,
            -0x100_0000_0000 <= dy <= 0x100_0000_0000,
        ensures
            final(self).wf(),
            final(self).board == old(self).board,
            final(self).piece_set == old(self).piece_set,
            final(self).twist_detector == old(self).twist_detector,
            final(self).input_actions == old(self).input_actions,
            final(self).renderer == old(self).renderer,
            final(self).hold_feature == old(self).hold_feature,
            final(self).gravity_feature == old(self).gravity_feature,
            final(self).paused == old(self).paused,
            final(self).messages == old(self).messages,
            final(self).queue == old(self).queue,
            final(self).active_piece == match old(self).active_piece {
                Some(p) => if !obstructed(
                    old(self).rows(),
                    old(self).units_of(p),
                    p.position.x + dx,
                    p.position.y + dy,
                ) {
                    Some(moved(p, dx as int, dy as int))
                } else {
                    Some(p)
                },
                None => None,
            },
    {
        if let Some(active_piece) = self.active_piece {
            let units = self.piece_set.units(&active_piece.piece_type, &active_piece.rotation);
            let x = active_piece.position.x as i64 + dx;
            let y = active_piece.position.y as i64 + dy;
            if !self.board.obstructed_at(&units, x, y) {
                proof {
                    self.piece_set.lemma_unit_offsets(active_piece.piece_type, active_piece.rotation);
                    assert(!crate::board::cell_filled(self.rows(), x + units@[0].x, y + units@[0].y));
                }
                let piece = Piece {
                    piece_type: active_piece.piece_type,
                    rotation: active_piece.rotation,
                    position: Position { x: x as i32, y: y as i32 },
                };
                self.active_piece = Some(piece);
                self.ghost_piece_position = self.ghost_of(self.active_piece);
            }
        }
    }

    /// Turns the active piece when the piece set finds room for it.
    fn rotate_active_piece(&mut self, direction: Direction)
        requires
            old(self).wf(),
        ensures
            final(self).wf(),
            final(self).board == old(self).board,
            final(self).piece_set == old(self).piece_set,
            final(self).twist_detector == old(self).twist_detector,
            final(self).input_actions == old(self).input_actions,
            final(self).renderer == old(self).renderer,
            final(self).hold_feature == old(self).hold_feature,
            final(self).gravity_feature == old(self).gravity_feature,
            final(self).paused == old(self).paused,
            final(self).messages == old(self).messages,
            final(self).queue == old(self).queue,
            final(self).active_piece == match old(self).active_piece {
                Some(p) => match old(self).piece_set.rotation_result(old(self).rows(), p, direction) {
                    Some(q) => Some(q),
                    None => Some(p),
                },
                None => None,
            },
    {
        if let Some(active_piece) = self.active_piece {
            if let Some(piece) = self.piece_set.rotate_piece(&self.board, &active_piece, direction) {
                self.active_piece = Some(piece);
                self.ghost_piece_position = self.ghost_of(self.active_piece);
            }
        }
    }

    /// Sets the active piece aside when holding is allowed, and spawns the
    /// type that was held before, or the next one from the queue.
    fn hold_active_piece(&mut self)
        requires
            old(self).wf(),
        ensures
            final(self).wf(),
            final(self).board == old(self).board,
            final(self).piece_set == old(self).piece_set,
            final(self).twist_detector == old(self).twist_detector,
            final(self).input_actions == old(self).input_actions,
            final(self).renderer == old(self).renderer,
            final(self).gravity_feature == old(self).gravity_feature,
            final(self).paused == old(self).paused,
            final(self).messages == old(self).messages,
            final(self).queue.capacity() == old(self).queue.capacity(),
            old(self).hold_transition(final(self)),
    {
        if let Some(active_piece) = self.active_piece {
            if let Some(piece_to_spawn) = self.hold_feature.hold(active_piece.piece_type) {
                self.spawn_piece(piece_to_spawn);
            }
        }
    }

    /// Locks the active piece where it stands: the twist check sees the board
    /// before the lock; then the lock's messages are queued, the next piece
    /// spawns from the queue and holding is allowed again. A piece not wholly
    /// on the board is not locked.
    fn lock_active_piece(&mut self)
        requires
            old(self).wf(),
        ensures
            final(self).wf(),
            final(self).piece_set == old(self).piece_set,
            final(self).twist_detector == old(self).twist_detector,
            final(self).input_actions == old(self).input_actions,
            final(self).renderer == old(self).renderer,
            final(self).gravity_feature == old(self).gravity_feature,
            final(self).paused == old(self).paused,
            final(self).queue.capacity() == old(self).queue.capacity(),
            match old(self).active_piece {
                Some(p) => old(self).locks_at(final(self), p, p.position),
                None => *final(self) == *old(self),
            },
    {
        if let Some(active_piece) = self.active_piece {
            let units = self.piece_set.units(&active_piece.piece_type, &active_piece.rotation);
            if !self.board.units_fit(&units, active_piece.position) {
                return;
            }
            let is_twist = self.twist_detector.is_twist(&self.board, &self.piece_set, &active_piece);
            proof {
                self.piece_set.lemma_unit_offsets(active_piece.piece_type, active_piece.rotation);
            }
            let lines_cleared = self.board.lock_piece(units, active_piece.position);
            if lines_cleared == 0 {
                if is_twist {
                    self.messages.push(Message::Twist(active_piece.piece_type));
                }
            } else if lines_cleared == 1 {
                self.messages.push(
                    if is_twist {
                        Message::TwistSingle(active_piece.piece_type)
                    } else {
                        Message::Single
                    },
                );
            } else if lines_cleared == 2 {
                self.messages.push(
                    if is_twist {
                        Message::TwistDouble(active_piece.piece_type)
                    } else {
                        Message::Double
                    },
                );
            } else if lines_cleared == 3 {
                self.messages.push(
                    if is_twist {
                        Message::TwistTriple(active_piece.piece_type)
                    } else {
                        Message::Triple
                    },
                );
            } else if lines_cleared == 4 {
                self.messages.push(Message::Quad);
            }
            if self.board.is_all_clear() {
                self.messages.push(Message::AllClear);
            }
            proof {
                assert(self.messages@ =~= old(self).messages@ + lock_messages(
                    lines_cleared as int,
                    is_twist,
                    active_piece.piece_type,
                    self.board.all_clear(),
                ));
            }
            self.spawn_piece(None);
            self.hold_feature.reset();
        }
    }

    /// Drops the active piece straight down as far as it goes and locks it.
    fn hard_drop_active_piece(&mut self)
        requires
            old(self).wf(),
        ensures
            final(self).wf(),
            final(self).piece_set == old(self).piece_set,
            final(self).twist_detector == old(self).twist_detector,
            final(self).input_actions == old(self).input_actions,
            final(self).renderer == old(self).renderer,
            final(self).gravity_feature == old(self).gravity_feature,
            final(self).paused == old(self).paused,
            final(self).queue.capacity() == old(self).queue.capacity(),
            old(self).hard_drop_transition(final(self)),
    {
        if let Some(active_piece) = self.active_piece {
            let position = self.cast_down(active_piece);
            proof {
                crate::board::lemma_cast_unique(
                    self.rows(),
                    self.units_of(active_piece),
                    active_piece.position,
                    down(),
                    position,
                    self.ghost_piece_position->0,
                );
            }
            let piece = Piece {
                piece_type: active_piece.piece_type,
                rotation: active_piece.rotation,
                position,
            };
            self.active_piece = Some(piece);
            self.ghost_piece_position = self.ghost_of(self.active_piece);
            self.lock_active_piece();
            proof {
                assert(Piece { position: position, ..piece } == piece);
            }
        }
    }

    /// Advances gravity by `delta_time` microseconds and moves the active
    /// piece down by the whole lines due, if it can go that far. A landed
    /// piece is not locked by gravity.
    fn update_gravity(&mut self, delta_time: u32)
        requires
            old(self).wf(),
        ensures
            final(self).wf(),
            final(self).board == old(self).board,
            final(self).piece_set == old(self).piece_set,
            final(self).twist_detector == old(self).twist_detector,
            final(self).input_actions == old(self).input_actions,
            final(self).renderer == old(self).renderer,
            final(self).hold_feature == old(self).hold_feature,
            final(self).paused == old(self).paused,
            final(self).messages == old(self).messages,
            final(self).queue == old(self).queue,
            final(self).gravity_feature.lines_per_second == old(self).gravity_feature.lines_per_second,
            match old(self).active_piece {
                Some(p) => {
                    let total = old(self).gravity_feature.drop_progress + delta_time
                        * old(self).gravity_feature.lines_per_second;
                    let lines = total / (PROGRESS_PER_LINE as int);
                    &&& final(self).gravity_feature.drop_progress == total % (PROGRESS_PER_LINE as int)
                    &&& final(self).active_piece == if lines > 0 && !obstructed(
                        old(self).rows(),
                        old(self).units_of(p),
                        p.position.x as int,
                        p.position.y - lines,
                    ) {
                        Some(moved(p, 0, -lines))
                    } else {
                        Some(p)
                    }
                },
                None => final(self).gravity_feature == old(self).gravity_feature
                    && final(self).active_piece == old(self).active_piece,
            },
    {
        if let Some(p) = self.active_piece {
            let lines_to_drop = self.gravity_feature.update_drop(delta_time);
            if lines_to_drop > 0 {
                let far: u64 = 0x100_0000_0000;
                let step = if lines_to_drop > far {
                    far
                } else {
                    lines_to_drop
                };
                proof {
                    if lines_to_drop > far {
                        self.piece_set.lemma_unit_offsets(p.piece_type, p.rotation);
                        let u = self.units_of(p);
                        let x = p.position.x + u[0].x;
                        assert(cell_filled(self.rows(), x, p.position.y - lines_to_drop + u[0].y));
                        assert(cell_filled(self.rows(), x, p.position.y - step + u[0].y));
                    }
                }
                self.move_active_piece(0, -(step as i64));
            }
        }
    }

    /// What applying one frame's `actions`, `delta_time` microseconds long,
    /// does: a `Pause` among them flips the pause; while paused nothing else
    /// changes; otherwise the actions are applied in order, one step each,
    /// then gravity. Only a hard drop changes the board or adds messages.
    pub open spec fn frame_outcome(&self, after: &Self, actions: Seq<Action>, delta_time: int)
        -> bool {
        &&& after.is_paused() == (self.is_paused() != actions.contains(Action::Pause))
        &&& after.is_paused() ==> {
            &&& after.rows() == self.rows()
            &&& after.active() == self.active()
            &&& after.ghost() == self.ghost()
            &&& after.queue_items() == self.queue_items()
            &&& after.hold() == self.hold()
            &&& after.drop_progress() == self.drop_progress()
            &&& after.lines_per_second() == self.lines_per_second()
            &&& after.messages() == self.messages()
        }
        &&& self.messages().is_prefix_of(after.messages())
        &&& !actions.contains(Action::HardDrop) ==> after.rows() == self.rows()
            && after.messages() == self.messages()
        &&& !after.is_paused() ==> exists|states: Seq<Self>|
            {
                &&& #[trigger] Self::chain(states, actions)
                &&& states[0].pieces() == self.pieces()
                &&& states[0].twist() == self.twist()
                &&& states[0].queue_capacity() == self.queue_capacity()
                &&& !states[0].is_paused()
                &&& states[0].rows() == self.rows()
                &&& states[0].active() == self.active()
                &&& states[0].queue_items() == self.queue_items()
                &&& states[0].hold() == self.hold()
                &&& states[0].drop_progress() == self.drop_progress()
                &&& states[0].lines_per_second() == self.lines_per_second()
                &&& states[0].messages() == self.messages()
                &&& states.last().gravity_transition(after, delta_time)
            }
    }

    /// Applies one frame's actions in order, then gravity. A `Pause` among
    /// them flips the pause first; while paused nothing else happens.
    pub fn apply_actions(&mut self, actions: &Vec<Action>, delta_time: u32)
        requires
            old(self).wf(),
        ensures
            final(self).wf(),
            final(self).pieces() == old(self).pieces(),
            final(self).twist() == old(self).twist(),
            final(self).queue_capacity() == old(self).queue_capacity(),
            final(self).translator() == old(self).translator(),
            old(self).frame_outcome(final(self), actions@, delta_time as int),
    {
        if contains_action(actions, Action::Pause) {
            self.paused = !self.paused;
        }
        if self.paused {
            return;
        }
        let ghost mut states: Seq<Self> = seq![*self];
        let ghost piece_set = self.piece_set;
        let ghost twist_detector = self.twist_detector;
        let ghost capacity = self.queue.capacity();
        let ghost messages = self.messages@;
        let ghost paused = self.paused;
        let mut i: usize = 0;
        while i < actions.len()
            invariant
                self.wf(),
                self.piece_set == piece_set,
                self.twist_detector == twist_detector,
                self.input_actions == old(self).input_actions,
                self.queue.capacity() == capacity,
                self.paused == paused,
                messages.is_prefix_of(self.messages@),
                i <= actions@.len(),
                (forall|j: int| 0 <= j < i ==> actions@[j] != Action::HardDrop) ==> self.board.rows@
                    == old(self).board.rows@ && self.messages@ == messages,
                states.len() == i + 1,
                states[i as int] == *self,
                states[0].rows() == old(self).rows(),
                states[0].active() == old(self).active(),
                states[0].queue_items() == old(self).queue_items(),
                states[0].hold() == old(self).hold(),
                states[0].drop_progress() == old(self).drop_progress(),
                states[0].lines_per_second() == old(self).lines_per_second(),
                states[0].messages() == old(self).messages(),
                states[0].pieces() == old(self).pieces(),
                states[0].twist() == old(self).twist(),
                states[0].queue_capacity() == old(self).queue_capacity(),
                !states[0].is_paused(),
                forall|j: int| 0 <= j < i ==> #[trigger] Self::link(states, actions@, j),
            decreases actions@.len() - i,
        {
            let ghost before = *self;
            let action = actions[i];
            match action {
                Action::MoveLeft => self.move_active_piece(-1, 0),
                Action::MoveRight => self.move_active_piece(1, 0),
                Action::RotateLeft => self.rotate_active_piece(Direction::CCW),
                Action::RotateRight => self.rotate_active_piece(Direction::CW),
                Action::Hold => self.hold_active_piece(),
                Action::HardDrop => self.hard_drop_active_piece(),
                Action::SoftDropStarted => self.gravity_feature.set_lines_per_second(50),
                Action::SoftDropStopped => self.gravity_feature.set_lines_per_second(1),
                Action::Pause => {},
            }
            proof {
                let next = states.push(*self);
                assert forall|j: int| 0 <= j <= i implies #[trigger] Self::link(next, actions@, j) by {
                    if j < i {
                        assert(Self::link(states, actions@, j));
                        assert(next[j] == states[j] && next[j + 1] == states[j + 1]);
                    } else {
                        assert(next[j] == before && next[j + 1] == *self);
                    }
                }
                states = next;
            }
            i += 1;
        }
        let ghost last = *self;
        self.update_gravity(delta_time);
        assert(last.gravity_transition(self, delta_time as int));
        assert(Self::chain(states, actions@));
    }

    /// An engine with an empty board and no active piece yet; `init` spawns
    /// the first. The queue must hold at least one upcoming piece.
    pub fn new(
        piece_set: TPieceSet,
        queue: Queue<PieceType, TRandom>,
        input_actions: TInputActions,
        twist_detector: TTwistDetector,
        renderer: TRenderer,
    ) -> (r: Self)
        requires
            queue.wf(),
            queue.capacity() > 0,
            input_actions.inv(),
        ensures
            r.wf(),
            r.board_view().all_clear(),
            r.rows() == crate::board::empty_rows(40),
            r.pieces() == piece_set,
            r.twist() == twist_detector,
            r.active() is None,
            r.ghost() is None,
            r.queue_items() == queue.items(),
            r.queue_capacity() == queue.capacity(),
            r.hold() == (HoldFeature { can_hold: true, hold_piece_type: None }),
            r.drop_progress() == 0,
            r.lines_per_second() == 1,
            !r.is_paused(),
            r.messages() == Seq::<Message>::empty(),
    {
        Rustris {
            board: Board::new(),
            piece_set,
            active_piece: None,
            ghost_piece_position: None,
            queue,
            input_actions,
            hold_feature: HoldFeature::new(),
            gravity_feature: GravityFeature::new(1),
            twist_detector,
            renderer,
            paused: false,
            messages: Vec::new(),
        }
    }

    /// Starts the renderer and spawns the first piece from the queue.
    pub fn init(&mut self)
        requires
            old(self).wf(),
        ensures
            final(self).wf(),
            final(self).rows() == old(self).rows(),
            final(self).pieces() == old(self).pieces(),
            final(self).twist() == old(self).twist(),
            final(self).hold() == old(self).hold(),
            final(self).messages() == old(self).messages(),
            final(self).active() matches Some(p) && p == spawned(p.piece_type) && Self::drew_from_queue(
                old(self).queue_items(),
                final(self).queue_items(),
                final(self).queue_capacity(),
                p.piece_type,
            ),
    {
        self.renderer.init();
        self.spawn_piece(None);
    }

    /// One frame of `delta_time` microseconds: takes the frame's actions from
    /// the input translator and applies them.
    pub fn update(&mut self, delta_time: u32)
        requires
            old(self).wf(),
        ensures
            final(self).wf(),
            final(self).pieces() == old(self).pieces(),
            final(self).twist() == old(self).twist(),
            exists|actions: Seq<Action>|
                #[trigger] old(self).translator().frame_step(
                    &final(self).translator(),
                    delta_time as int,
                    actions,
                ) && old(self).frame_outcome(final(self), actions, delta_time as int),
    {
        let ghost before = *self;
        let actions = self.input_actions.actions(delta_time);
        self.apply_actions(&actions, delta_time);
        assert(before.frame_outcome(self, actions@, delta_time as int));
        assert(before.translator().frame_step(&self.translator(), delta_time as int, actions@));
    }

    /// `state` shows this engine as it stands: the whole board, the active
    /// piece and its ghost, the held type, the buffered upcoming types, the
    /// pause flag and the messages queued since the last render.
    pub open spec fn shown_in(&self, state: RenderState<TPieceSet>) -> bool {
        &&& state.board_state@ == self.rows()
        &&& *state.piece_set == self.pieces()
        &&& state.active_piece == self.active()
        &&& state.ghost_piece_position == self.ghost()
        &&& state.hold_piece_type == self.hold().hold_piece_type
        &&& state.next_piece_types@ == self.queue_items()
        &&& state.paused == self.is_paused()
        &&& state.messages@ == self.messages()
    }

    /// The snapshot a renderer is shown, without filling the queue's buffer.
    pub fn render_state(&self) -> (r: RenderState<TPieceSet>)
        ensures
            self.shown_in(r),
    {
        snapshot(
            &self.board.rows,
            &self.piece_set,
            self.active_piece,
            self.ghost_piece_position,
            self.hold_feature.hold_piece_type,
            self.queue.buffered(),
            self.paused,
            &self.messages,
        )
    }

    /// Fills the queue's buffer, shows the renderer the snapshot of the
    /// engine as it then stands (the same one `render_state` gives), and
    /// drops the messages it was shown.
    pub fn render(&mut self, delta_time: u32)
        requires
            old(self).wf(),
        ensures
            final(self).wf(),
            final(self).rows() == old(self).rows(),
            final(self).pieces() == old(self).pieces(),
            final(self).twist() == old(self).twist(),
            final(self).active() == old(self).active(),
            final(self).ghost() == old(self).ghost(),
            final(self).hold() == old(self).hold(),
            final(self).is_paused() == old(self).is_paused(),
            final(self).messages() == Seq::<Message>::empty(),
            final(self).queue_items().len() == final(self).queue_capacity(),
            final(self).queue_items().subrange(0, old(self).queue_items().len() as int) == old(
                self,
            ).queue_items(),
            old(self).queue_items().len() == old(self).queue_capacity() ==> final(self).queue_items()
                == old(self).queue_items(),
    {
        self.queue.next_items();
        let state = snapshot(
            &self.board.rows,
            &self.piece_set,
            self.active_piece,
            self.ghost_piece_position,
            self.hold_feature.hold_piece_type,
            self.queue.buffered(),
            self.paused,
            &self.messages,
        );
        assert(self.shown_in(state));
        self.renderer.render(state, delta_time);
        self.messages.clear();
    }

    /// A lock that clears four rows queues exactly one `Quad`, and no twist
    /// message, whatever the twist detector says; `AllClear` follows when the
    /// board is left empty.
    pub proof fn lemma_lock_quad(s0: &Self, s1: &Self, p: Piece, g: Position)
        requires
            s0.locks_at(s1, p, g),
            units_in_bounds(s0.units_of(p), g.x as int, g.y as int),
            full_row_count(mark_cells(s0.rows(), s0.units_of(p), g.x as int, g.y as int, 4)) == 4,
        ensures
            s1.messages() == s0.messages() + if s1.board_view().all_clear() {
                seq![Message::Quad, Message::AllClear]
            } else {
                seq![Message::Quad]
            },
    {
        lemma_quad_message(
            s0.twist().detects(s0.rows(), s0.pieces(), Piece { position: g, ..p }),
            p.piece_type,
            s1.board_view().all_clear(),
        );
    }

    /// A lock that leaves the board empty queues `AllClear` last, after the
    /// line-clear message it also gives.
    pub proof fn lemma_lock_all_clear(s0: &Self, s1: &Self, p: Piece, g: Position)
        requires
            s0.locks_at(s1, p, g),
            units_in_bounds(s0.units_of(p), g.x as int, g.y as int),
            s1.board_view().all_clear(),
        ensures
            s1.messages() == s0.messages() + line_clear_messages(
                full_row_count(mark_cells(s0.rows(), s0.units_of(p), g.x as int, g.y as int, 4)),
                s0.twist().detects(s0.rows(), s0.pieces(), Piece { position: g, ..p }),
                p.piece_type,
            ) + seq![Message::AllClear],
            s1.messages().last() == Message::AllClear,
    {
        let marked = mark_cells(s0.rows(), s0.units_of(p), g.x as int, g.y as int, 4);
        let twist = s0.twist().detects(s0.rows(), s0.pieces(), Piece { position: g, ..p });
        lemma_all_clear_message(full_row_count(marked), twist, p.piece_type);
        assert(s1.messages() =~= s0.messages() + line_clear_messages(
            full_row_count(marked),
            twist,
            p.piece_type,
        ) + seq![Message::AllClear]);
    }

    /// Holding an active piece of type `t` with an empty slot puts `t` in
    /// the slot and brings in a new piece from the front of the queue; holding
    /// again straight away changes neither the active piece nor the slot.
    pub proof fn lemma_hold_twice(s0: &Self, s1: &Self, s2: &Self, t: PieceType)
        requires
            s0.active() matches Some(p) && p.piece_type == t,
            s0.hold() == (HoldFeature { can_hold: true, hold_piece_type: None }),
            s0.queue_items().len() > 0,
            s0.hold_transition(s1),
            s1.hold_transition(s2),
        ensures
            s1.hold() == (HoldFeature { can_hold: false, hold_piece_type: Some(t) }),
            s1.active() == Some(spawned(s0.queue_items()[0])),
            s2.active() == s1.active(),
            s2.hold() == s1.hold(),
            s2.queue_items() == s1.queue_items(),
    {
    }

    pub fn board(&self) -> (r: &Board)
        ensures
            *r == self.board_view(),
    {
        &self.board
    }

    pub fn active_piece(&self) -> (r: Option<Piece>)
        ensures
            r == self.active(),
    {
        self.active_piece
    }

    pub fn ghost_piece_position(&self) -> (r: Option<Position>)
        ensures
            r == self.ghost(),
    {
        self.ghost_piece_position
    }

    pub fn hold_piece_type(&self) -> (r: Option<PieceType>)
        ensures
            r == self.hold().hold_piece_type,
    {
        self.hold_feature.hold_piece_type
    }

    pub fn can_hold(&self) -> (r: bool)
        ensures
            r == self.hold().can_hold,
    {
        self.hold_feature.can_hold
    }

    pub fn paused(&self) -> (r: bool)
        ensures
            r == self.is_paused(),
    {
        self.paused
    }

    /// The messages queued since the last render.
    pub fn pending_messages(&self) -> (r: &Vec<Message>)
        ensures
            r@ == self.messages(),
    {
        &self.messages
    }
}

/// A snapshot built from copies of the given parts.
fn snapshot<'a, TPieceSet: PieceSet>(
    rows: &Vec<[bool; 10]>,
    piece_set: &'a TPieceSet,
    active_piece: Option<Piece>,
    ghost_piece_position: Option<Position>,
    hold_piece_type: Option<PieceType>,
    next_piece_types: &Vec<PieceType>,
    paused: bool,
    messages: &Vec<Message>,
) -> (r: RenderState<'a, TPieceSet>)
    ensures
        r.board_state@ == rows@,
        r.piece_set == piece_set,
        r.active_piece == active_piece,
        r.ghost_piece_position == ghost_piece_position,
        r.hold_piece_type == hold_piece_type,
        r.next_piece_types@ == next_piece_types@,
        r.paused == paused,
        r.messages@ == messages@,
{
    RenderState::new(
        copy_values(rows),
        piece_set,
        active_piece,
        ghost_piece_position,
        hold_piece_type,
        copy_values(next_piece_types),
        paused,
        copy_values(messages),
    )
}

fn contains_action(actions: &Vec<Action>, action: Action) -> (r: bool)
    ensures
        r == actions@.contains(action),
{
    let mut i: usize = 0;
    while i < actions.len()
        invariant
            i <= actions@.len(),
            forall|j: int| 0 <= j < i ==> actions@[j] != action,
        decreases actions@.len() - i,
    {
        if actions[i] == action {
            return true;
        }
        i += 1;
    }
    false
}

} // verus!
