//! Per-frame structured input: button states with edge-transition counts,
//! grouped per controller, and the capture policy that makes one frame's
//! input self-contained.

use vstd::prelude::*;

verus! {

/// Number of controllers a `GameInput` tracks.
pub const CONTROLLER_COUNT: usize = 1;
/// Index of the keyboard-backed controller.
pub const KEYBOARD_CONTROLLER_INDEX: usize = 0;

/// One button over one frame: its level at frame end and how many up/down
/// edges were seen during the frame.
#[derive(Clone, Copy, PartialEq, Eq, Structural, Debug)]
pub struct GameButtonState {
    /// Whether the button is down at the end of the frame.
    pub ended_down: bool,
    /// Number of transitions between down and up during the last frame.
    pub half_transition_count: usize,
}

impl Default for GameButtonState {
    fn default() -> (r: Self)
        ensures
            r == (GameButtonState { ended_down: false, half_transition_count: 0 }),
    {
        GameButtonState { ended_down: false, half_transition_count: 0 }
    }
}

/// The four movement buttons of one input source.
#[derive(Clone, Copy, PartialEq, Eq, Structural, Debug)]
pub struct ControllerInput {
    pub move_up: GameButtonState,
    pub move_down: GameButtonState,
    pub move_left: GameButtonState,
    pub move_right: GameButtonState,
}

/// The all-default controller: every button up with no transitions.
pub open spec fn default_controller() -> ControllerInput {
    ControllerInput {
        move_up: GameButtonState { ended_down: false, half_transition_count: 0 },
        move_down: GameButtonState { ended_down: false, half_transition_count: 0 },
        move_left: GameButtonState { ended_down: false, half_transition_count: 0 },
        move_right: GameButtonState { ended_down: false, half_transition_count: 0 },
    }
}

impl Default for ControllerInput {
    fn default() -> (r: Self)
        ensures
            r == default_controller(),
    {
        ControllerInput {
            move_up: Default::default(),
            move_down: Default::default(),
            move_left: Default::default(),
            move_right: Default::default(),
        }
    }
}

/// One frame's input: an ordered, non-empty sequence of controllers, sized
/// once at construction and never resized.
pub struct GameInput {
    pub controllers: Vec<ControllerInput>,
}

impl View for GameInput {
    type V = Seq<ControllerInput>;

    open spec fn view(&self) -> Seq<ControllerInput> {
        self.controllers@
    }
}

impl GameInput {
    /// A fresh input tracking `controller_count` controllers, all default.
    pub fn new(controller_count: usize) -> (r: Self)
        requires
            controller_count >= 1,
        ensures
            r@.len() == controller_count,
            forall|i: int| 0 <= i < controller_count ==> r@[i] == default_controller(),
    {
        Self { controllers: new_vec(ControllerInput::default(), controller_count) }
    }

    /// The controller at `index`.
    pub fn get_controller(&self, index: usize) -> (r: &ControllerInput)
        requires
            index < self@.len(),
        ensures
            *r == self@[index as int],
    {
        &self.controllers[index]
    }

    /// Replaces the controller at `index`.
    pub fn set_controller(&mut self, index: usize, c: ControllerInput)
        requires
            index < old(self)@.len(),
        ensures
            final(self)@ == old(self)@.update(index as int, c),
    {
        self.controllers.set(index, c);
    }
}

/// A controller at the start of a new frame: levels carried over from the
/// previous frame, edge counts reset to zero.
pub open spec fn carried_controller(c: ControllerInput) -> ControllerInput {
    ControllerInput {
        move_up: GameButtonState { ended_down: c.move_up.ended_down, half_transition_count: 0 },
        move_down: GameButtonState {
            ended_down: c.move_down.ended_down,
            half_transition_count: 0,
        },
        move_left: GameButtonState {
            ended_down: c.move_left.ended_down,
            half_transition_count: 0,
        },
        move_right: GameButtonState {
            ended_down: c.move_right.ended_down,
            half_transition_count: 0,
        },
    }
}

/// Begins a frame: for every controller, carries the previous frame's
/// `ended_down` levels forward and resets every transition count. This makes
/// each frame's `GameInput` a complete description of that frame, so a
/// recording of these structs replays without knowledge of prior frames.
pub fn begin_frame_input(new_input: &mut GameInput, old_input: &GameInput)
    requires
        old(new_input)@.len() == old_input@.len(),
    ensures
        final(new_input)@.len() == old_input@.len(),
        forall|i: int|
            0 <= i < old_input@.len() ==> final(new_input)@[i] == carried_controller(
                old_input@[i],
            ),
{
    let n = new_input.controllers.len();
    let mut i: usize = 0;
    while i < n
        invariant
            n == new_input@.len(),
            n == old_input@.len(),
            i <= n,
            forall|j: int| 0 <= j < i ==> new_input@[j] == carried_controller(old_input@[j]),
        decreases n - i,
    {
        let prev = *old_input.get_controller(i);
        let mut c = ControllerInput::default();
        c.move_up.ended_down = prev.move_up.ended_down;
        c.move_down.ended_down = prev.move_down.ended_down;
        c.move_left.ended_down = prev.move_left.ended_down;
        c.move_right.ended_down = prev.move_right.ended_down;
        new_input.set_controller(i, c);
        i += 1;
    }
}

/// Builds a `Vec` of `len` copies of `value`.
pub fn new_vec<T: Copy>(value: T, len: usize) -> (r: Vec<T>)
    ensures
        r@.len() == len,
        forall|i: int| 0 <= i < len ==> r@[i] == value,
{
    let mut r: Vec<T> = Vec::new();
    let mut i: usize = 0;
    while i < len
        invariant
            i <= len,
            r@.len() == i,
            forall|j: int| 0 <= j < i ==> r@[j] == value,
        decreases len - i,
    {
        r.push(value);
        i += 1;
    }
    r
}

/// The state of a button after one observed key edge.
pub open spec fn pressed_button(b: GameButtonState, is_down: bool) -> GameButtonState {
    GameButtonState { ended_down: is_down, half_transition_count: (b.half_transition_count + 1) as usize }
}

/// Applies one key edge to a button: flips its level and counts the
/// transition. A key event that does not flip the level would be a contract
/// violation at the event boundary, so it is excluded here.
pub fn process_key_press(new_state: &mut GameButtonState, is_down: bool)
    requires
        old(new_state).ended_down != is_down,
        old(new_state).half_transition_count < usize::MAX,
    ensures
        *final(new_state) == pressed_button(*old(new_state), is_down),
{
    new_state.ended_down = is_down;
    new_state.half_transition_count += 1;
}

} // verus!
