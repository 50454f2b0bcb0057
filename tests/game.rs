use std::cell::RefCell;
use std::rc::Rc;

use rustris::game::{GravityFeature, HoldFeature, Message, Rustris};
use rustris::input::{Action, DasInputActions, Input, InputSource};
use rustris::piece::{Piece, PieceType, Rotation};
use rustris::position::Position;
use rustris::queue::Queue;
use rustris::random::Random;
use rustris::renderer::{RenderState, Renderer};
use rustris::srs::SrsPieceSet;
use rustris::twist::{AllTwistDetector, ThreeCornerTTwistDetector};

struct NoInput;

impl InputSource for NoInput {
    fn inputs(&mut self) -> Vec<Input> {
        Vec::new()
    }
}

struct Script {
    items: Vec<PieceType>,
    next: usize,
}

impl Random<PieceType> for Script {
    fn inv(&self) -> bool {
        !self.items.is_empty()
    }

    fn draw_step(&self, _after: &Self, _item: PieceType) -> bool {
        true
    }

    fn next(&mut self) -> PieceType {
        let t = self.items[self.next % self.items.len()];
        self.next += 1;
        t
    }
}

#[derive(Default)]
struct Seen {
    frames: usize,
    messages: Vec<Message>,
    next: Vec<PieceType>,
    paused: bool,
}

struct Recorder {
    seen: Rc<RefCell<Seen>>,
}

impl Renderer<SrsPieceSet> for Recorder {
    fn init(&mut self) {}

    fn render(&mut self, state: RenderState<SrsPieceSet>, _delta_time: u32) {
        let mut seen = self.seen.borrow_mut();
        seen.frames += 1;
        seen.messages.extend(state.messages.iter().copied());
        seen.next = state.next_piece_types.clone();
        seen.paused = state.paused;
    }
}

type Game<T> = Rustris<SrsPieceSet, Script, DasInputActions<NoInput>, Recorder, T>;

fn game_with<T: rustris::twist::TwistDetector<SrsPieceSet>>(
    items: Vec<PieceType>,
    twist: T,
) -> (Game<T>, Rc<RefCell<Seen>>) {
    let seen = Rc::new(RefCell::new(Seen::default()));
    let mut game = Rustris::new(
        SrsPieceSet::new(),
        Queue::new(5, Script { items, next: 0 }),
        DasInputActions::new(NoInput, 183_333, 33_333),
        twist,
        Recorder { seen: seen.clone() },
    );
    game.init();
    (game, seen)
}

fn spawned(t: PieceType) -> Piece {
    Piece { piece_type: t, rotation: Rotation::Up, position: Position::new(4, 19) }
}

/// Turns a fresh I piece upright, moves it to column `c` and drops it.
fn drop_upright_i(game: &mut Game<ThreeCornerTTwistDetector>, c: i32) {
    let mut actions = vec![Action::RotateRight];
    let moves = c - 5;
    for _ in 0..moves.abs() {
        actions.push(if moves < 0 { Action::MoveLeft } else { Action::MoveRight });
    }
    actions.push(Action::HardDrop);
    game.apply_actions(&actions, 0);
}

#[test]
fn init_spawns_first_queue_item_with_ghost_on_floor() {
    let (game, _) = game_with(vec![PieceType::I, PieceType::T], ThreeCornerTTwistDetector);
    assert_eq!(game.active_piece(), Some(spawned(PieceType::I)));
    assert_eq!(game.ghost_piece_position(), Some(Position::new(4, 0)));
    assert!(game.can_hold());
    assert_eq!(game.hold_piece_type(), None);
}

#[test]
fn quad_gives_one_quad_message_then_all_clear() {
    let (mut game, _) = game_with(vec![PieceType::I], ThreeCornerTTwistDetector);
    for c in 0..9 {
        drop_upright_i(&mut game, c);
        assert!(game.pending_messages().is_empty());
    }
    drop_upright_i(&mut game, 9);
    assert_eq!(game.pending_messages(), &vec![Message::Quad, Message::AllClear]);
    assert!(game.board().is_all_clear());
}

#[test]
fn single_line_clear_message() {
    let (mut game, _) = game_with(vec![PieceType::I, PieceType::I, PieceType::O], ThreeCornerTTwistDetector);
    // Two flat I pieces fill columns 0..8 of row 0; an O fills columns 8 and 9.
    game.apply_actions(&vec![Action::MoveLeft, Action::MoveLeft, Action::MoveLeft, Action::HardDrop], 0);
    game.apply_actions(&vec![Action::MoveRight, Action::HardDrop], 0);
    assert!(game.pending_messages().is_empty());
    game.apply_actions(&vec![Action::MoveRight; 4].into_iter().chain([Action::HardDrop]).collect(), 0);
    assert_eq!(game.pending_messages(), &vec![Message::Single]);
    assert!(!game.board().is_all_clear());
    assert_eq!(game.board().rows[0], [false, false, false, false, false, false, false, false, true, true]);
}

#[test]
fn hold_twice_before_lock_is_ignored() {
    let (mut game, _) = game_with(
        vec![PieceType::T, PieceType::I, PieceType::O, PieceType::J, PieceType::L, PieceType::Z, PieceType::S],
        ThreeCornerTTwistDetector,
    );
    assert_eq!(game.active_piece(), Some(spawned(PieceType::T)));
    game.apply_actions(&vec![Action::MoveLeft, Action::Hold], 0);
    assert_eq!(game.hold_piece_type(), Some(PieceType::T));
    assert_eq!(game.active_piece(), Some(spawned(PieceType::I)));
    assert!(!game.can_hold());
    game.apply_actions(&vec![Action::MoveRight, Action::Hold], 0);
    assert_eq!(game.hold_piece_type(), Some(PieceType::T));
    assert_eq!(game.active_piece().unwrap().piece_type, PieceType::I);
    assert_eq!(game.active_piece().unwrap().position, Position::new(5, 19));
    game.apply_actions(&vec![Action::HardDrop], 0);
    assert!(game.can_hold());
    assert_eq!(game.active_piece(), Some(spawned(PieceType::O)));
    game.apply_actions(&vec![Action::Hold], 0);
    assert_eq!(game.active_piece(), Some(spawned(PieceType::T)));
    assert_eq!(game.hold_piece_type(), Some(PieceType::O));
}

#[test]
fn moves_stop_at_the_walls() {
    let (mut game, _) = game_with(vec![PieceType::O], ThreeCornerTTwistDetector);
    game.apply_actions(&vec![Action::MoveLeft; 8], 0);
    assert_eq!(game.active_piece().unwrap().position, Position::new(0, 19));
    game.apply_actions(&vec![Action::MoveRight; 12], 0);
    assert_eq!(game.active_piece().unwrap().position, Position::new(8, 19));
    assert_eq!(game.ghost_piece_position(), Some(Position::new(8, 0)));
}

#[test]
fn pause_freezes_everything_until_toggled() {
    let (mut game, _) = game_with(vec![PieceType::O], ThreeCornerTTwistDetector);
    game.apply_actions(&vec![Action::Pause, Action::MoveLeft], 2_000_000);
    assert!(game.paused());
    assert_eq!(game.active_piece(), Some(spawned(PieceType::O)));
    game.apply_actions(&vec![Action::HardDrop], 2_000_000);
    assert_eq!(game.active_piece(), Some(spawned(PieceType::O)));
    assert!(game.board().is_all_clear());
    game.apply_actions(&vec![Action::Pause], 0);
    assert!(!game.paused());
    game.apply_actions(&vec![Action::MoveLeft], 0);
    assert_eq!(game.active_piece().unwrap().position, Position::new(3, 19));
}

#[test]
fn gravity_drops_whole_lines_and_never_locks() {
    let (mut game, _) = game_with(vec![PieceType::O], ThreeCornerTTwistDetector);
    game.apply_actions(&vec![], 500_000);
    assert_eq!(game.active_piece().unwrap().position, Position::new(4, 19));
    game.apply_actions(&vec![], 600_000);
    assert_eq!(game.active_piece().unwrap().position, Position::new(4, 18));
    game.apply_actions(&vec![Action::SoftDropStarted], 100_000);
    assert_eq!(game.active_piece().unwrap().position, Position::new(4, 13));
    game.apply_actions(&vec![Action::SoftDropStopped], 3_000_000);
    assert_eq!(game.active_piece().unwrap().position, Position::new(4, 10));
    // More lines than fit below: the piece stays where it is.
    game.apply_actions(&vec![Action::SoftDropStarted], 1_000_000);
    assert_eq!(game.active_piece().unwrap().position, Position::new(4, 10));
    assert!(game.board().is_all_clear());
}

#[test]
fn three_corner_twist_message_against_the_wall() {
    let (mut game, _) = game_with(vec![PieceType::I, PieceType::T], ThreeCornerTTwistDetector);
    // A flat I fills columns 1..5 of row 0.
    game.apply_actions(&vec![Action::MoveLeft, Action::MoveLeft, Action::HardDrop], 0);
    assert!(game.pending_messages().is_empty());
    // An upright T at the left wall rests at (0, 1): two corners lie off the
    // board and (1, 0) is filled.
    let mut actions = vec![Action::RotateRight];
    actions.extend(vec![Action::MoveLeft; 4]);
    actions.push(Action::HardDrop);
    game.apply_actions(&actions, 0);
    assert_eq!(game.pending_messages(), &vec![Message::Twist(PieceType::T)]);
}

#[test]
fn all_twist_detector_ignores_a_piece_that_can_still_move() {
    let (mut game, _) = game_with(vec![PieceType::I, PieceType::O], AllTwistDetector);
    game.apply_actions(&vec![Action::MoveLeft, Action::MoveLeft, Action::MoveLeft, Action::HardDrop], 0);
    assert!(game.pending_messages().is_empty());
}

#[test]
fn render_hands_over_messages_once() {
    let (mut game, seen) = game_with(vec![PieceType::I], ThreeCornerTTwistDetector);
    for c in 0..10 {
        drop_upright_i(&mut game, c);
    }
    game.render(16_667);
    assert!(game.pending_messages().is_empty());
    game.render(16_667);
    let seen = seen.borrow();
    assert_eq!(seen.frames, 2);
    assert_eq!(seen.messages, vec![Message::Quad, Message::AllClear]);
    assert_eq!(seen.next, vec![PieceType::I; 5]);
    assert!(!seen.paused);
}

#[test]
fn render_state_shows_the_engine() {
    let (mut game, _) = game_with(vec![PieceType::T, PieceType::O], ThreeCornerTTwistDetector);
    game.apply_actions(&vec![Action::Hold], 0);
    let state = game.render_state();
    assert_eq!(state.board_state.len(), 40);
    assert_eq!(state.active_piece, Some(spawned(PieceType::O)));
    assert_eq!(state.ghost_piece_position, Some(Position::new(4, 0)));
    assert_eq!(state.hold_piece_type, Some(PieceType::T));
    assert_eq!(state.next_piece_types.len(), 5);
    assert!(!state.paused);
    assert!(state.messages.is_empty());
}

#[test]
fn hold_feature_rules() {
    let mut h = HoldFeature::new();
    assert_eq!(h.hold(PieceType::T), Some(None));
    assert_eq!(h.hold(PieceType::S), None);
    assert_eq!(h.hold_piece_type, Some(PieceType::T));
    h.reset();
    assert_eq!(h.hold(PieceType::S), Some(Some(PieceType::T)));
    assert_eq!(h.hold_piece_type, Some(PieceType::S));
}

#[test]
fn gravity_feature_keeps_progress_across_speed_changes() {
    let mut g = GravityFeature::new(1);
    assert_eq!(g.update_drop(500_000), 0);
    assert_eq!(g.drop_progress, 500_000);
    assert_eq!(g.update_drop(600_000), 1);
    assert_eq!(g.drop_progress, 100_000);
    g.set_lines_per_second(50);
    assert_eq!(g.drop_progress, 100_000);
    assert_eq!(g.update_drop(20_000), 1);
    assert_eq!(g.drop_progress, 100_000);
    assert_eq!(g.update_drop(u32::MAX), 214_748);
}
