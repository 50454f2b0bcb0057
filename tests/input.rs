use rustris::input::{is_press, is_release, Action, DasInputActions, Input, InputActions, InputSource};

struct Scripted {
    frames: Vec<Vec<Input>>,
}

impl InputSource for Scripted {
    fn inputs(&mut self) -> Vec<Input> {
        if self.frames.is_empty() {
            Vec::new()
        } else {
            self.frames.remove(0)
        }
    }
}

fn das(delay: u32, rate: u32) -> DasInputActions<Scripted> {
    DasInputActions::new(Scripted { frames: Vec::new() }, delay, rate)
}

fn count(actions: &[Action], a: Action) -> usize {
    actions.iter().filter(|x| **x == a).count()
}

#[test]
fn press_moves_once_at_once() {
    let mut d = das(100, 30);
    assert_eq!(d.translate(&vec![Input::LeftPress], 10), vec![Action::MoveLeft]);
    assert_eq!(d.translate(&vec![], 10), vec![]);
}

#[test]
fn held_left_repeats_after_delay_at_rate() {
    let delay: i64 = 100;
    let rate: i64 = 30;
    let frame: i64 = 10;
    let mut d = das(delay as u32, rate as u32);
    let mut repeats: i64 = count(&d.translate(&vec![Input::LeftPress], frame as u32), Action::MoveLeft) as i64 - 1;
    let mut total = frame;
    for _ in 0..60 {
        let expected = if total >= delay { (total - delay) / rate + 1 } else { 0 };
        assert_eq!(repeats, expected, "after {} microseconds", total);
        let a = d.translate(&vec![], frame as u32);
        assert!(a.iter().all(|x| *x == Action::MoveLeft));
        repeats += a.len() as i64;
        total += frame;
    }
}

#[test]
fn one_long_frame_catches_up_on_repeats() {
    let mut d = das(100, 30);
    let a = d.translate(&vec![Input::LeftPress], 200);
    assert_eq!(a, vec![Action::MoveLeft; 5]);
}

#[test]
fn repeat_at_exactly_the_delay() {
    let mut d = das(100, 30);
    assert_eq!(d.translate(&vec![Input::RightPress], 50), vec![Action::MoveRight]);
    assert_eq!(d.translate(&vec![], 50), vec![Action::MoveRight]);
    assert_eq!(d.translate(&vec![], 29), vec![]);
    assert_eq!(d.translate(&vec![], 1), vec![Action::MoveRight]);
}

#[test]
fn release_stops_repeats() {
    let mut d = das(100, 30);
    d.translate(&vec![Input::LeftPress], 10);
    assert_eq!(d.translate(&vec![Input::LeftRelease], 500), vec![]);
    assert_eq!(d.translate(&vec![], 500), vec![]);
}

#[test]
fn pressing_right_takes_over_from_left() {
    let mut d = das(100, 30);
    d.translate(&vec![Input::LeftPress], 10);
    assert_eq!(d.translate(&vec![Input::RightPress], 10), vec![Action::MoveRight]);
    let a = d.translate(&vec![], 200);
    assert_eq!(count(&a, Action::MoveLeft), 0);
    assert!(count(&a, Action::MoveRight) > 0);
}

#[test]
fn other_inputs_map_one_to_one_in_order() {
    let mut d = das(100, 30);
    let a = d.translate(
        &vec![
            Input::Pause,
            Input::Hold,
            Input::SoftDropRelease,
            Input::SoftDropPress,
            Input::HardDrop,
            Input::RotateRight,
            Input::RotateLeft,
        ],
        10,
    );
    assert_eq!(
        a,
        vec![
            Action::RotateLeft,
            Action::RotateRight,
            Action::HardDrop,
            Action::SoftDropStarted,
            Action::SoftDropStopped,
            Action::Hold,
            Action::Pause
        ]
    );
}

#[test]
fn press_comes_before_other_actions_and_repeats_last() {
    let mut d = das(0, 30);
    let a = d.translate(&vec![Input::HardDrop, Input::LeftPress], 0);
    assert_eq!(a, vec![Action::MoveLeft, Action::HardDrop, Action::MoveLeft]);
}

#[test]
fn actions_poll_the_input_source() {
    let mut d = DasInputActions::new(
        Scripted { frames: vec![vec![Input::RotateLeft], vec![Input::Hold]] },
        100,
        30,
    );
    assert_eq!(d.actions(10), vec![Action::RotateLeft]);
    assert_eq!(d.actions(10), vec![Action::Hold]);
    assert_eq!(d.actions(10), vec![]);
}

#[test]
fn key_press_and_release_between_polls() {
    let before = vec![123, 6];
    let after = vec![6, 124];
    assert!(is_press(&before, &after, 124));
    assert!(!is_press(&before, &after, 6));
    assert!(!is_press(&before, &after, 123));
    assert!(is_release(&before, &after, 123));
    assert!(!is_release(&before, &after, 6));
    assert!(!is_release(&before, &after, 124));
}
