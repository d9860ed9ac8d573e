//! Tests for the replay subsystem: snapshotting, recording, deterministic
//! playback, loop-on-exhaustion, and event handling.

use colonize::error::DecodeError;
use colonize::events::{process_pending_events, GameKey, InputEvent};
use colonize::game::{decode_game, encode_game, Game};
use colonize::input::{ControllerInput, GameButtonState, GameInput};
use colonize::replay::{
    begin_input_playback, begin_recording_input, end_input_playback, end_recording_input,
    playback_input, record_input, update_game, State, REPLAY_SLOT,
};
use colonize::voxel::VOXEL_ROW_COUNT;
use colonize::world::WorldGenerator;

fn sample_game() -> Game {
    let mut heights = vec![0usize; VOXEL_ROW_COUNT];
    heights[0] = 4;
    heights[33] = 7;
    let chunk = WorldGenerator::generate_chunk(&heights);
    Game {
        chunk,
        x_offset: 0,
        y_offset: 0,
    }
}

fn input_with_up_count(count: usize) -> GameInput {
    let mut input = GameInput::new(1);
    input.set_controller(0, ControllerInput {
        move_up: GameButtonState {
            ended_down: true,
            half_transition_count: count,
        },
        ..ControllerInput::default()
    });
    input
}

#[test]
fn game_snapshot_round_trip() {
    let mut game = sample_game();
    game.x_offset = -17;
    game.y_offset = 42;
    let encoded = encode_game(&game);
    let decoded = decode_game(&encoded).unwrap();
    assert_eq!(decoded.chunk.rows, game.chunk.rows);
    assert_eq!(decoded.chunk.row_data, game.chunk.row_data);
    assert_eq!(decoded.x_offset, -17);
    assert_eq!(decoded.y_offset, 42);
}

#[test]
fn snapshot_rejects_truncated_bytes() {
    assert!(matches!(
        decode_game(&vec![1u8, 2, 3]),
        Err(DecodeError::LengthMismatch)
    ));
}

#[test]
fn snapshot_rejects_bad_row_descriptor() {
    // 1024 descriptors, the first an allocated offset into empty storage
    let mut bytes = vec![0u8; 2064];
    bytes[1] = 0x80;
    assert!(matches!(
        decode_game(&bytes),
        Err(DecodeError::InvalidRowEntry)
    ));
}

#[test]
fn replay_determinism() {
    let mut state = State::new(sample_game());
    begin_recording_input(&mut state, REPLAY_SLOT);
    let frames = vec![
        input_with_up_count(1),
        input_with_up_count(2),
        GameInput::new(1),
    ];
    for frame in &frames {
        record_input(&mut state, frame);
    }
    end_recording_input(&mut state);

    begin_input_playback(&mut state, REPLAY_SLOT).unwrap();
    let mut played = GameInput::new(1);
    for frame in &frames {
        playback_input(&mut state, &mut played).unwrap();
        assert_eq!(played.controllers, frame.controllers);
    }
}

#[test]
fn playback_loops_on_exhaustion() {
    let mut state = State::new(sample_game());
    state.game.x_offset = 9;
    state.game.y_offset = -3;
    begin_recording_input(&mut state, REPLAY_SLOT);
    let first = input_with_up_count(11);
    record_input(&mut state, &first);
    record_input(&mut state, &input_with_up_count(22));
    end_recording_input(&mut state);

    begin_input_playback(&mut state, REPLAY_SLOT).unwrap();
    let mut played = GameInput::new(1);
    playback_input(&mut state, &mut played).unwrap();
    playback_input(&mut state, &mut played).unwrap();
    // drift the live game, then read one past the end
    state.game.x_offset = 1000;
    let before_loop = played.controllers.clone();
    playback_input(&mut state, &mut played).unwrap();
    // the exhausted read fabricates no input
    assert_eq!(played.controllers, before_loop);
    // and the snapshot is restored
    assert_eq!(state.game.x_offset, 9);
    assert_eq!(state.game.y_offset, -3);
    // the next read is the first recorded frame again
    playback_input(&mut state, &mut played).unwrap();
    assert_eq!(played.controllers, first.controllers);
}

#[test]
fn playback_on_empty_recording_loops_without_reading() {
    let mut state = State::new(sample_game());
    begin_recording_input(&mut state, REPLAY_SLOT);
    end_recording_input(&mut state);
    begin_input_playback(&mut state, REPLAY_SLOT).unwrap();
    let mut played = input_with_up_count(5);
    let expected = played.controllers.clone();
    playback_input(&mut state, &mut played).unwrap();
    assert_eq!(played.controllers, expected);
}

#[test]
fn begin_playback_restores_snapshot() {
    let mut state = State::new(sample_game());
    state.game.x_offset = 5;
    state.game.y_offset = -7;
    begin_recording_input(&mut state, REPLAY_SLOT);
    end_recording_input(&mut state);
    state.game.x_offset = 123;
    state.game.y_offset = 456;
    begin_input_playback(&mut state, REPLAY_SLOT).unwrap();
    assert_eq!(state.game.x_offset, 5);
    assert_eq!(state.game.y_offset, -7);
    assert!(state.input_playback_index.is_some());
    end_input_playback(&mut state);
    assert!(state.input_playback_index.is_none());
}

#[test]
fn begin_playback_fails_on_corrupt_snapshot() {
    let mut state = State::new(sample_game());
    state.snapshot = vec![9u8, 9, 9];
    let before = state.game.x_offset;
    let result = begin_input_playback(&mut state, REPLAY_SLOT);
    assert!(matches!(result, Err(DecodeError::LengthMismatch)));
    assert_eq!(state.game.x_offset, before);
    assert!(state.input_playback_index.is_none());
}

#[test]
fn recording_appends_fixed_size_records() {
    let mut state = State::new(sample_game());
    begin_recording_input(&mut state, REPLAY_SLOT);
    assert_eq!(state.recording.len(), 0);
    record_input(&mut state, &GameInput::new(1));
    assert_eq!(state.recording.len(), 44);
    record_input(&mut state, &input_with_up_count(2));
    assert_eq!(state.recording.len(), 88);
}

#[test]
fn update_game_moves_camera() {
    let mut game = sample_game();
    let mut input = GameInput::new(1);
    update_game(&mut game, &input);
    assert_eq!((game.x_offset, game.y_offset), (0, 0));

    input.set_controller(0, ControllerInput {
        move_up: GameButtonState {
            ended_down: true,
            half_transition_count: 1,
        },
        move_left: GameButtonState {
            ended_down: true,
            half_transition_count: 1,
        },
        ..ControllerInput::default()
    });
    update_game(&mut game, &input);
    assert_eq!((game.x_offset, game.y_offset), (-1, -1));

    input.set_controller(0, ControllerInput {
        move_down: GameButtonState {
            ended_down: true,
            half_transition_count: 1,
        },
        move_right: GameButtonState {
            ended_down: true,
            half_transition_count: 1,
        },
        ..ControllerInput::default()
    });
    update_game(&mut game, &input);
    update_game(&mut game, &input);
    assert_eq!((game.x_offset, game.y_offset), (1, 1));
}

#[test]
fn events_drive_controller_and_run_flag() {
    let mut state = State::new(sample_game());
    let mut controller = ControllerInput::default();
    let mut running = true;
    let events = vec![
        InputEvent::Key {
            key: GameKey::MoveUp,
            is_down: true,
        },
        InputEvent::Key {
            key: GameKey::MoveUp,
            is_down: false,
        },
        InputEvent::Key {
            key: GameKey::MoveRight,
            is_down: true,
        },
        InputEvent::Quit,
    ];
    process_pending_events(&mut state, &events, &mut controller, &mut running).unwrap();
    assert!(!running);
    assert!(!controller.move_up.ended_down);
    assert_eq!(controller.move_up.half_transition_count, 2);
    assert!(controller.move_right.ended_down);
    assert_eq!(controller.move_right.half_transition_count, 1);
}

#[test]
fn toggle_replay_switches_recording_to_playback() {
    let mut state = State::new(sample_game());
    let mut controller = ControllerInput::default();
    let mut running = true;
    let toggle = vec![InputEvent::Key {
        key: GameKey::ToggleReplay,
        is_down: true,
    }];
    // first press: begins recording
    process_pending_events(&mut state, &toggle, &mut controller, &mut running).unwrap();
    assert_eq!(state.input_recording_index, Some(REPLAY_SLOT));
    assert!(state.input_playback_index.is_none());
    record_input(&mut state, &input_with_up_count(1));
    // second press: ends the recording and begins playback
    process_pending_events(&mut state, &toggle, &mut controller, &mut running).unwrap();
    assert!(state.input_recording_index.is_none());
    assert_eq!(state.input_playback_index, Some(REPLAY_SLOT));
    let mut played = GameInput::new(1);
    playback_input(&mut state, &mut played).unwrap();
    assert_eq!(played.controllers[0].move_up.half_transition_count, 1);
}

#[test]
fn key_release_does_not_toggle_replay() {
    let mut state = State::new(sample_game());
    let mut controller = ControllerInput::default();
    let mut running = true;
    let events = vec![InputEvent::Key {
        key: GameKey::ToggleReplay,
        is_down: false,
    }];
    process_pending_events(&mut state, &events, &mut controller, &mut running).unwrap();
    assert!(state.input_recording_index.is_none());
    assert!(state.input_playback_index.is_none());
    assert!(running);
}

#[test]
fn error_description_is_stable() {
    assert_eq!(
        DecodeError::LengthMismatch.describe(),
        "input length does not match the encoding"
    );
}
