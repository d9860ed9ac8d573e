//! Tests for the input model and its fixed-size binary encoding.

use colonize::codec::{
    decode_game_input, encode_game_input, input_encoding_size_ok, GAME_INPUT_RECORD_SIZE,
};
use colonize::error::DecodeError;
use colonize::input::{
    begin_frame_input, new_vec, process_key_press, ControllerInput, GameButtonState, GameInput,
    CONTROLLER_COUNT,
};

fn pressed(count: usize) -> GameButtonState {
    GameButtonState {
        ended_down: true,
        half_transition_count: count,
    }
}

#[test]
fn startup_size_check_passes() {
    assert!(input_encoding_size_ok());
}

#[test]
fn default_input_encodes_to_record_size() {
    let input = GameInput::new(CONTROLLER_COUNT);
    let encoded = encode_game_input(&input);
    assert_eq!(encoded.len(), GAME_INPUT_RECORD_SIZE);
}

#[test]
fn saturated_input_encodes_to_record_size() {
    let mut input = GameInput::new(CONTROLLER_COUNT);
    let c = ControllerInput {
        move_up: pressed(usize::MAX),
        move_down: pressed(usize::MAX),
        move_left: pressed(usize::MAX),
        move_right: pressed(usize::MAX),
    };
    input.set_controller(0, c);
    assert_eq!(encode_game_input(&input).len(), GAME_INPUT_RECORD_SIZE);
}

#[test]
fn default_input_exact_bytes() {
    let input = GameInput::new(1);
    let encoded = encode_game_input(&input);
    let mut expected = vec![1u8, 0, 0, 0, 0, 0, 0, 0];
    expected.extend(std::iter::repeat(0u8).take(36));
    assert_eq!(encoded, expected);
}

#[test]
fn nontrivial_input_exact_bytes() {
    let mut input = GameInput::new(1);
    let mut c = ControllerInput::default();
    c.move_up = GameButtonState {
        ended_down: true,
        half_transition_count: 258,
    };
    input.set_controller(0, c);
    let encoded = encode_game_input(&input);
    // count = 1
    assert_eq!(&encoded[0..8], &[1, 0, 0, 0, 0, 0, 0, 0]);
    // move_up: level byte then 258 little-endian
    assert_eq!(&encoded[8..17], &[1, 2, 1, 0, 0, 0, 0, 0, 0]);
    // the three other buttons stay default
    assert!(encoded[17..44].iter().all(|&b| b == 0));
}

#[test]
fn encode_decode_round_trip() {
    let mut input = GameInput::new(1);
    let c = ControllerInput {
        move_up: GameButtonState {
            ended_down: true,
            half_transition_count: 3,
        },
        move_down: GameButtonState {
            ended_down: false,
            half_transition_count: 2,
        },
        move_left: pressed(1),
        move_right: GameButtonState {
            ended_down: false,
            half_transition_count: 0,
        },
    };
    input.set_controller(0, c);
    let encoded = encode_game_input(&input);
    let decoded = decode_game_input(&encoded).unwrap();
    assert_eq!(decoded.controllers, input.controllers);
}

#[test]
fn round_trip_with_two_controllers() {
    let mut input = GameInput::new(2);
    input.set_controller(1, ControllerInput {
        move_up: pressed(9),
        ..ControllerInput::default()
    });
    let encoded = encode_game_input(&input);
    assert_eq!(encoded.len(), 8 + 36 * 2);
    let decoded = decode_game_input(&encoded).unwrap();
    assert_eq!(decoded.controllers, input.controllers);
}

#[test]
fn decode_rejects_truncated_record() {
    let input = GameInput::new(1);
    let mut encoded = encode_game_input(&input);
    encoded.pop();
    assert!(matches!(
        decode_game_input(&encoded),
        Err(DecodeError::LengthMismatch)
    ));
}

#[test]
fn decode_rejects_zero_controllers() {
    let encoded = vec![0u8; 8];
    assert!(matches!(
        decode_game_input(&encoded),
        Err(DecodeError::ValueOutOfRange)
    ));
}

#[test]
fn decode_rejects_count_not_matching_length() {
    let mut encoded = vec![2u8, 0, 0, 0, 0, 0, 0, 0];
    encoded.extend(std::iter::repeat(0u8).take(36));
    assert!(matches!(
        decode_game_input(&encoded),
        Err(DecodeError::LengthMismatch)
    ));
}

#[test]
fn decode_rejects_bad_bool_byte() {
    let input = GameInput::new(1);
    let mut encoded = encode_game_input(&input);
    encoded[8] = 2;
    assert!(matches!(
        decode_game_input(&encoded),
        Err(DecodeError::InvalidBool)
    ));
}

#[test]
fn key_press_flips_level_and_counts_edges() {
    let mut b = GameButtonState::default();
    process_key_press(&mut b, true);
    assert!(b.ended_down);
    assert_eq!(b.half_transition_count, 1);
    process_key_press(&mut b, false);
    assert!(!b.ended_down);
    assert_eq!(b.half_transition_count, 2);
}

#[test]
fn begin_frame_carries_levels_and_resets_counts() {
    let mut old_input = GameInput::new(1);
    old_input.set_controller(0, ControllerInput {
        move_up: pressed(5),
        move_down: GameButtonState {
            ended_down: false,
            half_transition_count: 4,
        },
        move_left: pressed(1),
        move_right: GameButtonState::default(),
    });
    let mut new_input = GameInput::new(1);
    begin_frame_input(&mut new_input, &old_input);
    let c = *new_input.get_controller(0);
    assert!(c.move_up.ended_down);
    assert!(!c.move_down.ended_down);
    assert!(c.move_left.ended_down);
    assert!(!c.move_right.ended_down);
    assert_eq!(c.move_up.half_transition_count, 0);
    assert_eq!(c.move_down.half_transition_count, 0);
    assert_eq!(c.move_left.half_transition_count, 0);
    assert_eq!(c.move_right.half_transition_count, 0);
}

#[test]
fn new_vec_fills_with_value() {
    let v = new_vec(7u8, 5);
    assert_eq!(v, vec![7, 7, 7, 7, 7]);
    let empty = new_vec(0u8, 0);
    assert!(empty.is_empty());
}

#[test]
fn new_input_is_all_default() {
    let input = GameInput::new(3);
    assert_eq!(input.controllers.len(), 3);
    for i in 0..3 {
        let c = *input.get_controller(i);
        assert_eq!(c, ControllerInput::default());
    }
}
