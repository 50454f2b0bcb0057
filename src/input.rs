//! Key events, game actions, and delayed-auto-shift translation between them.

use vstd::prelude::*;

verus! {

/// A raw key event.
#[derive(Clone, Copy, Debug, PartialEq, Eq, Structural)]
pub enum Input {
    LeftPress,
    LeftRelease,
    RightPress,
    RightRelease,
    SoftDropPress,
    SoftDropRelease,
    RotateLeft,
    RotateRight,
    HardDrop,
    Hold,
    Pause,
}

/// Where key events come from; polled once per frame.
pub trait InputSource {
    fn inputs(&mut self) -> Vec<Input>;
}

/// A game action, applied by the engine in the order given.
#[derive(Clone, Copy, Debug, PartialEq, Eq, Structural)]
pub enum Action {
    MoveLeft,
    MoveRight,
    SoftDropStarted,
    SoftDropStopped,
    HardDrop,
    RotateLeft,
    RotateRight,
    Hold,
    Pause,
}

/// Turns the events of one frame into actions; `delta_time` is the frame's
/// length in microseconds.
pub trait InputActions {
    /// The state in which the translator can run.
    spec fn inv(&self) -> bool;

    /// One frame of `delta_time` microseconds can take the translator from
    /// `self` to `after` and give `actions`.
    spec fn frame_step(&self, after: &Self, delta_time: int, actions: Seq<Action>) -> bool;

    fn actions(&mut self, delta_time: u32) -> (r: Vec<Action>)
        requires
            old(self).inv(),
        ensures
            final(self).inv(),
            old(self).frame_step(final(self), delta_time as int, r@),
    ;
}

/// How many repeats fire while the timer is not positive, adding `rate`
/// after each one.
pub open spec fn repeat_count(timer: int, rate: int) -> int
    recommends
        rate > 0,
    decreases (if timer > 0 { 0 } else { 1 - timer }),
    when rate > 0
{
    if timer > 0 {
        0
    } else {
        1 + repeat_count(timer + rate, rate)
    }
}

/// The timer once the repeats have fired.
pub open spec fn repeat_end(timer: int, rate: int) -> int
    recommends
        rate > 0,
    decreases (if timer > 0 { 0 } else { 1 - timer }),
    when rate > 0
{
    if timer > 0 {
        timer
    } else {
        repeat_end(timer + rate, rate)
    }
}

/// One frame of auto-shift while a direction is held: a positive timer runs
/// down by `delta`; then, while it is not positive, a repeat fires and `rate`
/// is added. Gives the new timer and the number of repeats.
pub open spec fn shift_step(timer: int, delta: int, rate: int) -> (int, int) {
    let t = if timer > 0 {
        timer - delta
    } else {
        timer
    };
    (repeat_end(t, rate), repeat_count(t, rate))
}

pub open spec fn if_input(inputs: Seq<Input>, input: Input, action: Action) -> Seq<Action> {
    if inputs.contains(input) {
        seq![action]
    } else {
        seq![]
    }
}

/// The actions that follow from events directly, in their fixed order.
pub open spec fn press_actions(inputs: Seq<Input>) -> Seq<Action> {
    if_input(inputs, Input::LeftPress, Action::MoveLeft) + if_input(
        inputs,
        Input::RightPress,
        Action::MoveRight,
    ) + if_input(inputs, Input::RotateLeft, Action::RotateLeft) + if_input(
        inputs,
        Input::RotateRight,
        Action::RotateRight,
    ) + if_input(inputs, Input::HardDrop, Action::HardDrop) + if_input(
        inputs,
        Input::SoftDropPress,
        Action::SoftDropStarted,
    ) + if_input(inputs, Input::SoftDropRelease, Action::SoftDropStopped) + if_input(
        inputs,
        Input::Hold,
        Action::Hold,
    ) + if_input(inputs, Input::Pause, Action::Pause)
}

pub open spec fn repeated(action: Action, n: int) -> Seq<Action> {
    Seq::new(n as nat, |i: int| action)
}

/// The delayed-auto-shift state: the shift timer and which direction is held.
pub struct DasState {
    pub timer: int,
    pub holding_left: bool,
    pub holding_right: bool,
}

/// One frame of translation: the state after it and the actions it gives.
pub open spec fn das_frame(s: DasState, inputs: Seq<Input>, delta: int, delay: int, rate: int) -> (
    DasState,
    Seq<Action>,
) {
    let lp = inputs.contains(Input::LeftPress);
    let rp = inputs.contains(Input::RightPress);
    let hl1 = if lp {
        true
    } else {
        s.holding_left
    };
    let hr1 = if lp {
        false
    } else {
        s.holding_right
    };
    let t1 = if lp {
        delay
    } else {
        s.timer
    };
    let hl2 = if inputs.contains(Input::LeftRelease) {
        false
    } else {
        hl1
    };
    let hr3 = if rp {
        true
    } else {
        hr1
    };
    let hl3 = if rp {
        false
    } else {
        hl2
    };
    let t3 = if rp {
        delay
    } else {
        t1
    };
    let hr4 = if inputs.contains(Input::RightRelease) {
        false
    } else {
        hr3
    };
    let (t5, left) = if hl3 {
        shift_step(t3, delta, rate)
    } else {
        (t3, 0)
    };
    let (t6, right) = if hr4 {
        shift_step(t5, delta, rate)
    } else {
        (t5, 0)
    };
    (
        DasState { timer: t6, holding_left: hl3, holding_right: hr4 },
        press_actions(inputs) + repeated(Action::MoveLeft, left) + repeated(Action::MoveRight, right),
    )
}

fn has_input(inputs: &Vec<Input>, input: Input) -> (r: bool)
    ensures
        r == inputs@.contains(input),
{
    let mut i: usize = 0;
    while i < inputs.len()
        invariant
            i <= inputs@.len(),
            forall|j: int| 0 <= j < i ==> inputs@[j] != input,
        decreases inputs@.len() - i,
    {
        if inputs[i] == input {
            return true;
        }
        i += 1;
    }
    false
}

fn has_key(keys: &Vec<u16>, key: u16) -> (r: bool)
    ensures
        r == keys@.contains(key),
{
    let mut i: usize = 0;
    while i < keys.len()
        invariant
            i <= keys@.len(),
            forall|j: int| 0 <= j < i ==> keys@[j] != key,
        decreases keys@.len() - i,
    {
        if keys[i] == key {
            return true;
        }
        i += 1;
    }
    false
}

/// `key` went down between two polls of the held keys.
pub fn is_press(prev_keys: &Vec<u16>, keys: &Vec<u16>, key: u16) -> (r: bool)
    ensures
        r == (!prev_keys@.contains(key) && keys@.contains(key)),
{
    !has_key(prev_keys, key) && has_key(keys, key)
}

/// `key` came up between two polls of the held keys.
pub fn is_release(prev_keys: &Vec<u16>, keys: &Vec<u16>, key: u16) -> (r: bool)
    ensures
        r == (prev_keys@.contains(key) && !keys@.contains(key)),
{
    has_key(prev_keys, key) && !has_key(keys, key)
}

/// Delayed auto shift: a held direction moves once at once, then repeats
/// every `auto_repeat_rate` microseconds after `delayed_auto_shift`.
pub struct DasInputActions<TInputSource: InputSource> {
    input_source: TInputSource,
    delayed_auto_shift: u32,
    auto_repeat_rate: u32,
    auto_shift_timer: i64,
    holding_left: bool,
    holding_right: bool,
}

/// Largest magnitude of the shift timer.
pub open spec fn timer_bound() -> int {
    0x1_0000_0000
}

impl<TInputSource: InputSource> DasInputActions<TInputSource> {
    pub closed spec fn state(&self) -> DasState {
        DasState {
            timer: self.auto_shift_timer as int,
            holding_left: self.holding_left,
            holding_right: self.holding_right,
        }
    }

    pub closed spec fn delay(&self) -> int {
        self.delayed_auto_shift as int
    }

    pub closed spec fn rate(&self) -> int {
        self.auto_repeat_rate as int
    }

    pub closed spec fn wf(&self) -> bool {
        &&& self.auto_repeat_rate > 0
        &&& -timer_bound() < self.auto_shift_timer < timer_bound()
    }

    /// `delayed_auto_shift` and `auto_repeat_rate` are in microseconds; a
    /// repeat rate of 0 would repeat without end.
    pub fn new(input_source: TInputSource, delayed_auto_shift: u32, auto_repeat_rate: u32) -> (r:
        Self)
        requires
            auto_repeat_rate > 0,
        ensures
            r.wf(),
            r.delay() == delayed_auto_shift,
            r.rate() == auto_repeat_rate,
            r.state() == (DasState { timer: 0, holding_left: false, holding_right: false }),
    {
        Self {
            input_source,
            delayed_auto_shift,
            auto_repeat_rate,
            auto_shift_timer: 0,
            holding_left: false,
            holding_right: false,
        }
    }

    fn handle_auto_shift_timer(&mut self, delta_time: u32) -> (r: u64)
        requires
            old(self).wf(),
        ensures
            final(self).wf(),
            final(self).delay() == old(self).delay(),
            final(self).rate() == old(self).rate(),
            final(self).holding_left == old(self).holding_left,
            final(self).holding_right == old(self).holding_right,
            (final(self).auto_shift_timer as int, r as int) == shift_step(
                old(self).auto_shift_timer as int,
                delta_time as int,
                old(self).auto_repeat_rate as int,
            ),
    {
        let mut timer = self.auto_shift_timer;
        if timer > 0 {
            timer = timer - delta_time as i64;
        }
        let ghost t = timer as int;
        let rate = self.auto_repeat_rate as i64;
        let mut count: u64 = 0;
        while timer <= 0
            invariant
                rate == self.auto_repeat_rate,
                rate > 0,
                -2 * timer_bound() < t < timer_bound(),
                t <= timer < timer_bound(),
                count <= timer - t,
                count + repeat_count(timer as int, rate as int) == repeat_count(t, rate as int),
                repeat_end(timer as int, rate as int) == repeat_end(t, rate as int),
            decreases (if timer > 0 { 0 } else { 1 - timer }),
        {
            count += 1;
            timer = timer + rate;
        }
        self.auto_shift_timer = timer;
        count
    }
}

impl<TInputSource: InputSource> DasInputActions<TInputSource> {
    fn push_if(actions: &mut Vec<Action>, inputs: &Vec<Input>, input: Input, action: Action)
        ensures
            final(actions)@ == old(actions)@ + if_input(inputs@, input, action),
    {
        if has_input(inputs, input) {
            actions.push(action);
        }
        assert(final(actions)@ =~= old(actions)@ + if_input(inputs@, input, action));
    }

    fn push_repeated(actions: &mut Vec<Action>, action: Action, count: u64)
        ensures
            final(actions)@ == old(actions)@ + repeated(action, count as int),
    {
        let ghost start = actions@;
        let mut i: u64 = 0;
        while i < count
            invariant
                i <= count,
                actions@ == start + repeated(action, i as int),
            decreases count - i,
        {
            actions.push(action);
            i += 1;
            assert(actions@ =~= start + repeated(action, i as int));
        }
    }

    /// The actions of one frame with the given events, `delta_time`
    /// microseconds long.
    pub fn translate(&mut self, inputs: &Vec<Input>, delta_time: u32) -> (r: Vec<Action>)
        requires
            old(self).wf(),
        ensures
            final(self).wf(),
            final(self).delay() == old(self).delay(),
            final(self).rate() == old(self).rate(),
            (final(self).state(), r@) == das_frame(
                old(self).state(),
                inputs@,
                delta_time as int,
                old(self).delay(),
                old(self).rate(),
            ),
    {
        let mut actions: Vec<Action> = Vec::new();
        if has_input(inputs, Input::LeftPress) {
            actions.push(Action::MoveLeft);
            self.holding_left = true;
            self.holding_right = false;
            self.auto_shift_timer = self.delayed_auto_shift as i64;
        }
        if has_input(inputs, Input::LeftRelease) {
            self.holding_left = false;
        }
        if has_input(inputs, Input::RightPress) {
            actions.push(Action::MoveRight);
            self.holding_right = true;
            self.holding_left = false;
            self.auto_shift_timer = self.delayed_auto_shift as i64;
        }
        if has_input(inputs, Input::RightRelease) {
            self.holding_right = false;
        }
        assert(actions@ =~= if_input(inputs@, Input::LeftPress, Action::MoveLeft) + if_input(
            inputs@,
            Input::RightPress,
            Action::MoveRight,
        ));
        Self::push_if(&mut actions, inputs, Input::RotateLeft, Action::RotateLeft);
        Self::push_if(&mut actions, inputs, Input::RotateRight, Action::RotateRight);
        Self::push_if(&mut actions, inputs, Input::HardDrop, Action::HardDrop);
        Self::push_if(&mut actions, inputs, Input::SoftDropPress, Action::SoftDropStarted);
        Self::push_if(&mut actions, inputs, Input::SoftDropRelease, Action::SoftDropStopped);
        Self::push_if(&mut actions, inputs, Input::Hold, Action::Hold);
        Self::push_if(&mut actions, inputs, Input::Pause, Action::Pause);
        assert(actions@ =~= press_actions(inputs@));
        let ghost before_left = actions@;
        let mut left: u64 = 0;
        if self.holding_left {
            left = self.handle_auto_shift_timer(delta_time);
        }
        Self::push_repeated(&mut actions, Action::MoveLeft, left);
        let mut right: u64 = 0;
        if self.holding_right {
            right = self.handle_auto_shift_timer(delta_time);
        }
        Self::push_repeated(&mut actions, Action::MoveRight, right);
        assert(actions@ =~= press_actions(inputs@) + repeated(Action::MoveLeft, left as int)
            + repeated(Action::MoveRight, right as int));
        actions
    }
}

impl<TInputSource: InputSource> InputActions for DasInputActions<TInputSource> {
    closed spec fn inv(&self) -> bool {
        self.wf()
    }

    /// Whatever events the source gave, they were translated exactly, and
    /// the delay and repeat rate are kept.
    open spec fn frame_step(&self, after: &Self, delta_time: int, actions: Seq<Action>) -> bool {
        &&& after.delay() == self.delay()
        &&& after.rate() == self.rate()
        &&& exists|inputs: Seq<Input>|
            (after.state(), actions) == #[trigger] das_frame(
                self.state(),
                inputs,
                delta_time,
                self.delay(),
                self.rate(),
            )
    }

    fn actions(&mut self, delta_time: u32) -> (r: Vec<Action>) {
        let inputs = self.input_source.inputs();
        let ghost before = *self;
        let r = self.translate(&inputs, delta_time);
        assert((self.state(), r@) == das_frame(
            before.state(),
            inputs@,
            delta_time as int,
            before.delay(),
            before.rate(),
        ));
        assert(before.state() == old(self).state());
        assert(before.delay() == old(self).delay() && before.rate() == old(self).rate());
        r
    }
}

/// Total length of a run of frames.
pub open spec fn total_time(deltas: Seq<int>) -> int
    decreases deltas.len(),
{
    if deltas.len() == 0 {
        0
    } else {
        deltas[0] + total_time(deltas.drop_first())
    }
}

/// A direction held through frames of the given lengths, from timer value
/// `timer`: the timer at the end and the number of repeats.
pub open spec fn held_run(timer: int, deltas: Seq<int>, rate: int) -> (int, int)
    decreases deltas.len(),
{
    if deltas.len() == 0 {
        (timer, 0)
    } else {
        let (t1, c1) = shift_step(timer, deltas[0], rate);
        let (t2, c2) = held_run(t1, deltas.drop_first(), rate);
        (t2, c1 + c2)
    }
}

proof fn lemma_repeats(timer: int, rate: int)
    requires
        rate > 0,
    ensures
        repeat_end(timer, rate) == timer + repeat_count(timer, rate) * rate,
        repeat_end(timer, rate) > 0,
        repeat_count(timer, rate) >= 0,
        timer <= 0 ==> repeat_end(timer, rate) <= rate && repeat_count(timer, rate) >= 1,
        timer > 0 ==> repeat_count(timer, rate) == 0,
    decreases (if timer > 0 { 0 } else { 1 - timer }),
{
    if timer <= 0 {
        lemma_repeats(timer + rate, rate);
        let c = repeat_count(timer + rate, rate);
        assert((timer + rate) + c * rate == timer + (1 + c) * rate) by (nonlinear_arith);
    }
}

proof fn lemma_total_time_nonneg(deltas: Seq<int>)
    requires
        forall|i: int| 0 <= i < deltas.len() ==> deltas[i] >= 0,
    ensures
        total_time(deltas) >= 0,
    decreases deltas.len(),
{
    if deltas.len() > 0 {
        let rest = deltas.drop_first();
        assert forall|i: int| 0 <= i < rest.len() implies rest[i] >= 0 by {
            assert(rest[i] == deltas[i + 1]);
        }
        lemma_total_time_nonneg(rest);
    }
}

proof fn lemma_held_run(timer: int, deltas: Seq<int>, rate: int)
    requires
        rate > 0,
        timer > 0,
        forall|i: int| 0 <= i < deltas.len() ==> deltas[i] >= 0,
    ensures
        held_run(timer, deltas, rate).0 == timer - total_time(deltas) + rate * held_run(
            timer,
            deltas,
            rate,
        ).1,
        held_run(timer, deltas, rate).0 > 0,
        held_run(timer, deltas, rate).1 >= 0,
        held_run(timer, deltas, rate).1 >= 1 ==> held_run(timer, deltas, rate).0 <= rate,
    decreases deltas.len(),
{
    if deltas.len() > 0 {
        let t = timer - deltas[0];
        lemma_repeats(t, rate);
        let (t1, c1) = shift_step(timer, deltas[0], rate);
        let rest = deltas.drop_first();
        assert forall|i: int| 0 <= i < rest.len() implies rest[i] >= 0 by {
            assert(rest[i] == deltas[i + 1]);
        }
        lemma_held_run(t1, rest, rate);
        lemma_total_time_nonneg(rest);
        let (t2, c2) = held_run(t1, rest, rate);
        if c2 == 0 {
            assert(rate * c2 == 0) by (nonlinear_arith)
                requires
                    c2 == 0,
            ;
        }
        assert(t1 == t + c1 * rate);
        assert(rate * c2 + c1 * rate == rate * (c1 + c2)) by (nonlinear_arith);
    }
}

/// Holding a direction with a positive delay, across frames of the given
/// lengths (the press falls in the first), gives no repeated move before the
/// total time `T` reaches the delay, and `(T - delay) / rate + 1` repeated
/// moves from then on.
pub proof fn lemma_auto_shift_repeat_count(delay: int, rate: int, deltas: Seq<int>)
    requires
        delay > 0,
        rate > 0,
        forall|i: int| 0 <= i < deltas.len() ==> deltas[i] >= 0,
    ensures
        held_run(delay, deltas, rate).1 == if total_time(deltas) >= delay {
            (total_time(deltas) - delay) / rate + 1
        } else {
            0
        },
{
    lemma_held_run(delay, deltas, rate);
    let (t, c) = held_run(delay, deltas, rate);
    let total = total_time(deltas);
    if c >= 1 {
        assert(rate * (c - 1) <= total - delay < rate * c) by (nonlinear_arith)
            requires
                t == delay - total + rate * c,
                0 < t <= rate,
        ;
        assert((total - delay) / rate == c - 1 && total >= delay) by (nonlinear_arith)
            requires
                rate * (c - 1) <= total - delay < rate * c,
                rate > 0,
                c >= 1,
        ;
    } else {
        assert(rate * c == 0) by (nonlinear_arith)
            requires
                c == 0,
        ;
    }
}

/// How many times `a` occurs in `s`.
pub open spec fn count_of(s: Seq<Action>, a: Action) -> int
    decreases s.len(),
{
    if s.len() == 0 {
        0
    } else {
        count_of(s.drop_last(), a) + if s.last() == a {
            1int
        } else {
            0int
        }
    }
}

proof fn lemma_count_add(x: Seq<Action>, y: Seq<Action>, a: Action)
    ensures
        count_of(x + y, a) == count_of(x, a) + count_of(y, a),
    decreases y.len(),
{
    if y.len() > 0 {
        lemma_count_add(x, y.drop_last(), a);
        assert((x + y).drop_last() =~= x + y.drop_last());
    } else {
        assert(x + y =~= x);
    }
}

proof fn lemma_count_repeated(b: Action, n: int, a: Action)
    requires
        n >= 0,
    ensures
        count_of(repeated(b, n), a) == if b == a {
            n
        } else {
            0
        },
    decreases n,
{
    if n > 0 {
        lemma_count_repeated(b, n - 1, a);
        assert(repeated(b, n).drop_last() =~= repeated(b, n - 1));
    }
}

proof fn lemma_count_if_input(inputs: Seq<Input>, input: Input, b: Action, a: Action)
    ensures
        count_of(if_input(inputs, input, b), a) == if inputs.contains(input) && b == a {
            1int
        } else {
            0int
        },
{
    reveal_with_fuel(count_of, 2);
    if inputs.contains(input) {
        assert(seq![b].drop_last() =~= Seq::<Action>::empty());
    }
}

proof fn lemma_count_press_left(inputs: Seq<Input>)
    ensures
        count_of(press_actions(inputs), Action::MoveLeft) == if inputs.contains(Input::LeftPress) {
            1int
        } else {
            0int
        },
{
    let m = Action::MoveLeft;
    let a1 = if_input(inputs, Input::LeftPress, Action::MoveLeft);
    let a2 = a1 + if_input(inputs, Input::RightPress, Action::MoveRight);
    let a3 = a2 + if_input(inputs, Input::RotateLeft, Action::RotateLeft);
    let a4 = a3 + if_input(inputs, Input::RotateRight, Action::RotateRight);
    let a5 = a4 + if_input(inputs, Input::HardDrop, Action::HardDrop);
    let a6 = a5 + if_input(inputs, Input::SoftDropPress, Action::SoftDropStarted);
    let a7 = a6 + if_input(inputs, Input::SoftDropRelease, Action::SoftDropStopped);
    let a8 = a7 + if_input(inputs, Input::Hold, Action::Hold);
    lemma_count_if_input(inputs, Input::LeftPress, Action::MoveLeft, m);
    lemma_count_if_input(inputs, Input::RightPress, Action::MoveRight, m);
    lemma_count_if_input(inputs, Input::RotateLeft, Action::RotateLeft, m);
    lemma_count_if_input(inputs, Input::RotateRight, Action::RotateRight, m);
    lemma_count_if_input(inputs, Input::HardDrop, Action::HardDrop, m);
    lemma_count_if_input(inputs, Input::SoftDropPress, Action::SoftDropStarted, m);
    lemma_count_if_input(inputs, Input::SoftDropRelease, Action::SoftDropStopped, m);
    lemma_count_if_input(inputs, Input::Hold, Action::Hold, m);
    lemma_count_if_input(inputs, Input::Pause, Action::Pause, m);
    lemma_count_add(a1, if_input(inputs, Input::RightPress, Action::MoveRight), m);
    lemma_count_add(a2, if_input(inputs, Input::RotateLeft, Action::RotateLeft), m);
    lemma_count_add(a3, if_input(inputs, Input::RotateRight, Action::RotateRight), m);
    lemma_count_add(a4, if_input(inputs, Input::HardDrop, Action::HardDrop), m);
    lemma_count_add(a5, if_input(inputs, Input::SoftDropPress, Action::SoftDropStarted), m);
    lemma_count_add(a6, if_input(inputs, Input::SoftDropRelease, Action::SoftDropStopped), m);
    lemma_count_add(a7, if_input(inputs, Input::Hold, Action::Hold), m);
    lemma_count_add(a8, if_input(inputs, Input::Pause, Action::Pause), m);
}

/// A run of frames through the translator, from state `s`: the state at
/// the end and how many `MoveLeft` actions the frames gave in all.
pub open spec fn das_run(
    s: DasState,
    frames: Seq<Seq<Input>>,
    deltas: Seq<int>,
    delay: int,
    rate: int,
) -> (DasState, int)
    decreases frames.len(),
{
    if frames.len() == 0 || deltas.len() == 0 {
        (s, 0)
    } else {
        let (s1, actions) = das_frame(s, frames[0], deltas[0], delay, rate);
        let (s2, c) = das_run(s1, frames.drop_first(), deltas.drop_first(), delay, rate);
        (s2, count_of(actions, Action::MoveLeft) + c)
    }
}

/// Frame events that neither press nor release left, nor press right.
pub open spec fn keeps_holding_left(inputs: Seq<Input>) -> bool {
    &&& !inputs.contains(Input::LeftPress)
    &&& !inputs.contains(Input::LeftRelease)
    &&& !inputs.contains(Input::RightPress)
}

proof fn lemma_frame_left_count(s: DasState, inputs: Seq<Input>, delta: int, delay: int, rate: int)
    requires
        rate > 0,
    ensures
        ({
            let (s1, actions) = das_frame(s, inputs, delta, delay, rate);
            let lp = inputs.contains(Input::LeftPress);
            let holding = (lp || s.holding_left) && !inputs.contains(Input::LeftRelease) && !inputs.contains(
                Input::RightPress,
            );
            let t = if lp {
                delay
            } else {
                s.timer
            };
            count_of(actions, Action::MoveLeft) == (if lp {
                1int
            } else {
                0int
            }) + if holding {
                shift_step(t, delta, rate).1
            } else {
                0
            }
        }),
{
    let (s1, actions) = das_frame(s, inputs, delta, delay, rate);
    lemma_count_press_left(inputs);
    let p = press_actions(inputs);
    let lp = inputs.contains(Input::LeftPress);
    let t = if lp {
        delay
    } else {
        s.timer
    };
    let t3 = if inputs.contains(Input::RightPress) {
        delay
    } else {
        t
    };
    let tt = if t3 > 0 {
        t3 - delta
    } else {
        t3
    };
    lemma_repeats(tt, rate);
    let holding = (lp || s.holding_left) && !inputs.contains(Input::LeftRelease) && !inputs.contains(
        Input::RightPress,
    );
    let left = if holding {
        shift_step(t3, delta, rate).1
    } else {
        0
    };
    let t5 = if holding {
        shift_step(t3, delta, rate).0
    } else {
        t3
    };
    let t5t = if t5 > 0 {
        t5 - delta
    } else {
        t5
    };
    lemma_repeats(t5t, rate);
    let right = das_frame(s, inputs, delta, delay, rate).1.len() - p.len() - left;
    lemma_count_repeated(Action::MoveLeft, left, Action::MoveLeft);
    lemma_count_add(p, repeated(Action::MoveLeft, left), Action::MoveLeft);
    let hr4 = if inputs.contains(Input::RightRelease) {
        false
    } else if inputs.contains(Input::RightPress) {
        true
    } else if lp {
        false
    } else {
        s.holding_right
    };
    let r = if hr4 {
        shift_step(t5, delta, rate).1
    } else {
        0
    };
    lemma_count_repeated(Action::MoveRight, r, Action::MoveLeft);
    lemma_count_add(p + repeated(Action::MoveLeft, left), repeated(Action::MoveRight, r), Action::MoveLeft);
}

proof fn lemma_held_frames(s: DasState, frames: Seq<Seq<Input>>, deltas: Seq<int>, delay: int, rate: int)
    requires
        rate > 0,
        s.holding_left,
        !s.holding_right,
        frames.len() == deltas.len(),
        forall|i: int| 0 <= i < frames.len() ==> keeps_holding_left(#[trigger] frames[i]),
    ensures
        das_run(s, frames, deltas, delay, rate).1 == held_run(s.timer, deltas, rate).1,
    decreases frames.len(),
{
    if frames.len() > 0 {
        assert(keeps_holding_left(frames[0]));
        lemma_frame_left_count(s, frames[0], deltas[0], delay, rate);
        let (s1, actions) = das_frame(s, frames[0], deltas[0], delay, rate);
        let rest = frames.drop_first();
        assert forall|i: int| 0 <= i < rest.len() implies keeps_holding_left(#[trigger] rest[i]) by {
            assert(rest[i] == frames[i + 1]);
        }
        lemma_held_frames(s1, rest, deltas.drop_first(), delay, rate);
    }
}

/// Pressing left in the first frame of a run and holding it (no later left
/// press or release, no right press), with a positive delay, gives one
/// immediate `MoveLeft`, then none until the total time `T` of the frames
/// reaches the delay, and `(T - delay) / rate + 1` repeated ones from then on.
pub proof fn lemma_held_left_moves(
    s: DasState,
    frames: Seq<Seq<Input>>,
    deltas: Seq<int>,
    delay: int,
    rate: int,
)
    requires
        delay > 0,
        rate > 0,
        frames.len() == deltas.len(),
        frames.len() >= 1,
        forall|i: int| 0 <= i < deltas.len() ==> deltas[i] >= 0,
        frames[0].contains(Input::LeftPress),
        !frames[0].contains(Input::LeftRelease),
        !frames[0].contains(Input::RightPress),
        forall|i: int| 1 <= i < frames.len() ==> keeps_holding_left(#[trigger] frames[i]),
    ensures
        das_run(s, frames, deltas, delay, rate).1 == 1 + if total_time(deltas) >= delay {
            (total_time(deltas) - delay) / rate + 1
        } else {
            0
        },
{
    lemma_frame_left_count(s, frames[0], deltas[0], delay, rate);
    let (s1, actions) = das_frame(s, frames[0], deltas[0], delay, rate);
    let rest = frames.drop_first();
    assert forall|i: int| 0 <= i < rest.len() implies keeps_holding_left(#[trigger] rest[i]) by {
        assert(rest[i] == frames[i + 1]);
    }
    lemma_held_frames(s1, rest, deltas.drop_first(), delay, rate);
    lemma_auto_shift_repeat_count(delay, rate, deltas);
}

} // verus!
