//! Applying one frame's filtered device events to the controller, the
//! replay session, and the run flag.
//!
//! The driver translates raw window events into `InputEvent`s — dropping
//! key repeats and unbound keys — and hands them over in order. Movement
//! keys toggle buttons; the replay key begins recording when idle and
//! switches to playback when already recording; a quit event clears the
//! run flag.

use vstd::prelude::*;
use crate::error::DecodeError;
use crate::input::{pressed_button, ControllerInput};
use crate::replay::{
    begin_input_playback, begin_playback_spec, begin_recording_input, begin_recording_spec,
    end_recording_input, end_recording_spec, State, StateModel, REPLAY_SLOT,
};
use crate::voxel::VOXEL_ROW_COUNT;

verus! {

/// The keys the game binds.
#[derive(Clone, Copy, PartialEq, Eq, Structural, Debug)]
pub enum GameKey {
    MoveUp,
    MoveDown,
    MoveLeft,
    MoveRight,
    /// Begins recording when idle, else switches the recording to playback.
    ToggleReplay,
}

/// One filtered device event. Key repeats must be filtered upstream and
/// never appear here.
#[derive(Clone, Copy, PartialEq, Eq, Structural, Debug)]
pub enum InputEvent {
    /// The user asked to stop the driver loop.
    Quit,
    /// A key changed level.
    Key { key: GameKey, is_down: bool },
}

/// The controller after one key edge: the bound button flips and counts the
/// transition; the replay key leaves the controller alone.
pub open spec fn controller_with_key(c: ControllerInput, key: GameKey, is_down: bool) -> ControllerInput {
    match key {
        GameKey::MoveUp => ControllerInput { move_up: pressed_button(c.move_up, is_down), ..c },
        GameKey::MoveDown => ControllerInput {
            move_down: pressed_button(c.move_down, is_down),
            ..c
        },
        GameKey::MoveLeft => ControllerInput {
            move_left: pressed_button(c.move_left, is_down),
            ..c
        },
        GameKey::MoveRight => ControllerInput {
            move_right: pressed_button(c.move_right, is_down),
            ..c
        },
        GameKey::ToggleReplay => c,
    }
}

/// The effect of one event on session state, controller, and run flag.
pub open spec fn event_step(
    m: StateModel,
    c: ControllerInput,
    running: bool,
    e: InputEvent,
) -> Result<(StateModel, ControllerInput, bool), DecodeError> {
    match e {
        InputEvent::Quit => Ok((m, c, false)),
        InputEvent::Key { key, is_down } => match key {
            GameKey::ToggleReplay => {
                if !is_down {
                    Ok((m, c, running))
                } else if m.input_recording_index is None {
                    Ok((begin_recording_spec(m, REPLAY_SLOT), c, running))
                } else {
                    match begin_playback_spec(end_recording_spec(m), REPLAY_SLOT) {
                        Ok(m2) => Ok((m2, c, running)),
                        Err(e) => Err(e),
                    }
                }
            },
            _ => Ok((m, controller_with_key(c, key, is_down), running)),
        },
    }
}

/// What must hold for one event to be applied: a key edge must actually
/// flip its button's level (repeats are a contract violation upstream), the
/// transition count must not saturate, and a toggle into recording needs a
/// game whose chunk can be snapshotted.
pub open spec fn event_admissible(m: StateModel, c: ControllerInput, e: InputEvent) -> bool {
    match e {
        InputEvent::Quit => true,
        InputEvent::Key { key, is_down } => match key {
            GameKey::MoveUp => c.move_up.ended_down != is_down && c.move_up.half_transition_count
                < usize::MAX,
            GameKey::MoveDown => c.move_down.ended_down != is_down
                && c.move_down.half_transition_count < usize::MAX,
            GameKey::MoveLeft => c.move_left.ended_down != is_down
                && c.move_left.half_transition_count < usize::MAX,
            GameKey::MoveRight => c.move_right.ended_down != is_down
                && c.move_right.half_transition_count < usize::MAX,
            GameKey::ToggleReplay => is_down && m.input_recording_index is None
                ==> m.game.rows.len() == VOXEL_ROW_COUNT,
        },
    }
}

/// The effect of a whole event sequence, applied in order; the first decode
/// failure wins.
pub open spec fn events_fold(
    m: StateModel,
    c: ControllerInput,
    running: bool,
    evs: Seq<InputEvent>,
) -> Result<(StateModel, ControllerInput, bool), DecodeError>
    decreases evs.len(),
{
    if evs.len() == 0 {
        Ok((m, c, running))
    } else {
        match event_step(m, c, running, evs[0]) {
            Err(e) => Err(e),
            Ok(t) => events_fold(t.0, t.1, t.2, evs.drop_first()),
        }
    }
}

/// Every event of the sequence is admissible in the state it is applied in.
pub open spec fn events_admissible(
    m: StateModel,
    c: ControllerInput,
    running: bool,
    evs: Seq<InputEvent>,
) -> bool
    decreases evs.len(),
{
    evs.len() == 0 || {
        &&& event_admissible(m, c, evs[0])
        &&& match event_step(m, c, running, evs[0]) {
            Err(_) => true,
            Ok(t) => events_admissible(t.0, t.1, t.2, evs.drop_first()),
        }
    }
}

/// Applies one frame's events in order: movement edges to the controller,
/// replay toggles to the session, quit requests to the run flag. Fails —
/// with the remaining events unapplied — only if a replay toggle needs a
/// snapshot that does not decode.
pub fn process_pending_events(
    state: &mut State,
    events: &Vec<InputEvent>,
    new_controller: &mut ControllerInput,
    running: &mut bool,
) -> (r: Result<(), DecodeError>)
    requires
        events_admissible(old(state)@, *old(new_controller), *old(running), events@),
    ensures
        match r {
            Ok(_) => events_fold(old(state)@, *old(new_controller), *old(running), events@) == Ok::<
                (StateModel, ControllerInput, bool),
                DecodeError,
            >((final(state)@, *final(new_controller), *final(running))),
            Err(e) => events_fold(old(state)@, *old(new_controller), *old(running), events@)
                == Err::<(StateModel, ControllerInput, bool), DecodeError>(e),
        },
{
    let n = events.len();
    proof {
        assert(events@.skip(0) =~= events@);
    }
    let mut i: usize = 0;
    while i < n
        invariant
            n == events@.len(),
            i <= n,
            events_fold(old(state)@, *old(new_controller), *old(running), events@) == events_fold(
                state@,
                *new_controller,
                *running,
                events@.skip(i as int),
            ),
            events_admissible(state@, *new_controller, *running, events@.skip(i as int)),
        decreases n - i,
    {
        let ghost m0 = state@;
        let ghost c0 = *new_controller;
        let ghost r0 = *running;
        proof {
            assert(events@.skip(i as int)[0] == events@[i as int]);
        }
        let e = events[i];
        match e {
            InputEvent::Quit => {
                *running = false;
            },
            InputEvent::Key { key, is_down } => match key {
                GameKey::MoveUp => {
                    crate::input::process_key_press(&mut new_controller.move_up, is_down);
                },
                GameKey::MoveDown => {
                    crate::input::process_key_press(&mut new_controller.move_down, is_down);
                },
                GameKey::MoveLeft => {
                    crate::input::process_key_press(&mut new_controller.move_left, is_down);
                },
                GameKey::MoveRight => {
                    crate::input::process_key_press(&mut new_controller.move_right, is_down);
                },
                GameKey::ToggleReplay => {
                    if is_down {
                        if state.input_recording_index.is_none() {
                            begin_recording_input(state, REPLAY_SLOT);
                        } else {
                            end_recording_input(state);
                            match begin_input_playback(state, REPLAY_SLOT) {
                                Ok(_) => {},
                                Err(err) => {
                                    proof {
                                        assert(event_step(m0, c0, r0, e) == Err::<
                                            (StateModel, ControllerInput, bool),
                                            DecodeError,
                                        >(err));
                                    }
                                    return Err(err);
                                },
                            }
                        }
                    }
                },
            },
        }
        proof {
            assert(event_step(m0, c0, r0, events@[i as int]) == Ok::<
                (StateModel, ControllerInput, bool),
                DecodeError,
            >((state@, *new_controller, *running)));
            assert(events@.skip(i as int).drop_first() =~= events@.skip(i as int + 1));
        }
        i += 1;
    }
    proof {
        assert(events@.skip(n as int) =~= Seq::<InputEvent>::empty());
    }
    Ok(())
}

} // verus!
