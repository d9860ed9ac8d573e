//! The canonical binary encoding of `GameInput`: a controller count followed
//! by four buttons per controller, each a level byte plus a 64-bit
//! little-endian transition count. With the canonical controller count the
//! encoding has a fixed size, so an input stream needs no delimiters: record
//! boundaries are pure `GAME_INPUT_RECORD_SIZE`-byte strides.

use vstd::prelude::*;
use crate::bytes::{le8, le8_val, lemma_le8_roundtrip, push_u64_le, read_u64_le};
use crate::error::DecodeError;
use crate::input::{ControllerInput, GameButtonState, GameInput, CONTROLLER_COUNT};

verus! {

/// Size in bytes of the encoding of one `GameInput` holding
/// `CONTROLLER_COUNT` controllers: 8 bytes of count plus 36 per controller.
/// Playback reads the input stream in strides of this size.
pub const GAME_INPUT_RECORD_SIZE: usize = 44;

/// The nine bytes of one button: its level, then its transition count.
pub open spec fn button_bytes(b: GameButtonState) -> Seq<u8> {
    seq![if b.ended_down { 1u8 } else { 0u8 }] + le8(b.half_transition_count as int)
}

/// The 36 bytes of one controller: its four buttons in order.
pub open spec fn controller_bytes(c: ControllerInput) -> Seq<u8> {
    button_bytes(c.move_up) + button_bytes(c.move_down) + button_bytes(c.move_left)
        + button_bytes(c.move_right)
}

/// The concatenated encodings of a controller sequence.
pub open spec fn controllers_bytes(cs: Seq<ControllerInput>) -> Seq<u8>
    decreases cs.len(),
{
    if cs.len() == 0 {
        Seq::empty()
    } else {
        controller_bytes(cs[0]) + controllers_bytes(cs.drop_first())
    }
}

/// The full encoding of one input: controller count, then the controllers.
pub open spec fn input_bytes(cs: Seq<ControllerInput>) -> Seq<u8> {
    le8(cs.len() as int) + controllers_bytes(cs)
}

/// Parses nine bytes back into a button.
pub open spec fn parse_button(s: Seq<u8>) -> Result<GameButtonState, DecodeError> {
    if s[0] != 0 && s[0] != 1 {
        Err(DecodeError::InvalidBool)
    } else if le8_val(s.subrange(1, 9)) > usize::MAX {
        Err(DecodeError::ValueOutOfRange)
    } else {
        Ok(
            GameButtonState {
                ended_down: s[0] == 1,
                half_transition_count: le8_val(s.subrange(1, 9)) as usize,
            },
        )
    }
}

/// Parses 36 bytes back into a controller.
pub open spec fn parse_controller(s: Seq<u8>) -> Result<ControllerInput, DecodeError> {
    match parse_button(s.subrange(0, 9)) {
        Err(e) => Err(e),
        Ok(up) => match parse_button(s.subrange(9, 18)) {
            Err(e) => Err(e),
            Ok(down) => match parse_button(s.subrange(18, 27)) {
                Err(e) => Err(e),
                Ok(left) => match parse_button(s.subrange(27, 36)) {
                    Err(e) => Err(e),
                    Ok(right) => Ok(
                        ControllerInput {
                            move_up: up,
                            move_down: down,
                            move_left: left,
                            move_right: right,
                        },
                    ),
                },
            },
        },
    }
}

/// Parses `n` consecutive controller encodings.
pub open spec fn parse_controllers(s: Seq<u8>, n: nat) -> Result<Seq<ControllerInput>, DecodeError>
    decreases n,
{
    if n == 0 {
        Ok(Seq::empty())
    } else {
        match parse_controller(s.subrange(0, 36)) {
            Err(e) => Err(e),
            Ok(c) => match parse_controllers(s.skip(36), (n - 1) as nat) {
                Err(e) => Err(e),
                Ok(rest) => Ok(seq![c] + rest),
            },
        }
    }
}

/// Parses a full input encoding. The input must carry at least one
/// controller, and the byte length must fit the count exactly.
pub open spec fn parse_input(s: Seq<u8>) -> Result<Seq<ControllerInput>, DecodeError> {
    if s.len() < 8 {
        Err(DecodeError::LengthMismatch)
    } else {
        let n = le8_val(s.subrange(0, 8));
        if n < 1 {
            Err(DecodeError::ValueOutOfRange)
        } else if s.len() - 8 != 36 * n {
            Err(DecodeError::LengthMismatch)
        } else {
            parse_controllers(s.skip(8), n as nat)
        }
    }
}

/// A controller sequence encodes to 36 bytes per controller.
pub proof fn lemma_controllers_bytes_len(cs: Seq<ControllerInput>)
    ensures
        controllers_bytes(cs).len() == 36 * cs.len(),
    decreases cs.len(),
{
    if cs.len() > 0 {
        lemma_controllers_bytes_len(cs.drop_first());
    }
}

/// Appending one controller appends its 36 bytes.
pub proof fn lemma_controllers_bytes_push(cs: Seq<ControllerInput>, c: ControllerInput)
    ensures
        controllers_bytes(cs.push(c)) == controllers_bytes(cs) + controller_bytes(c),
    decreases cs.len(),
{
    if cs.len() == 0 {
        assert(cs.push(c)[0] == c);
        assert(cs.push(c).drop_first() =~= cs);
        assert(controllers_bytes(cs.push(c)) == controller_bytes(c) + controllers_bytes(cs));
        assert(controller_bytes(c) + controllers_bytes(cs) =~= controllers_bytes(cs)
            + controller_bytes(c));
    } else {
        assert(cs.push(c)[0] == cs[0]);
        assert(cs.push(c).drop_first() =~= cs.drop_first().push(c));
        lemma_controllers_bytes_push(cs.drop_first(), c);
        assert(controllers_bytes(cs.push(c)) == controller_bytes(cs[0]) + (controllers_bytes(
            cs.drop_first(),
        ) + controller_bytes(c)));
        assert(controller_bytes(cs[0]) + (controllers_bytes(cs.drop_first()) + controller_bytes(c))
            =~= (controller_bytes(cs[0]) + controllers_bytes(cs.drop_first())) + controller_bytes(
            c,
        ));
        assert(controllers_bytes(cs) == controller_bytes(cs[0]) + controllers_bytes(
            cs.drop_first(),
        ));
    }
}

/// A button's encoding parses back to the button.
pub proof fn lemma_button_roundtrip(b: GameButtonState)
    ensures
        parse_button(button_bytes(b)) == Ok::<GameButtonState, DecodeError>(b),
{
    let s = button_bytes(b);
    assert(s.subrange(1, 9) =~= le8(b.half_transition_count as int));
    lemma_le8_roundtrip(b.half_transition_count as int);
}

/// A controller's encoding parses back to the controller.
#[verifier::rlimit(50)]
pub proof fn lemma_controller_roundtrip(c: ControllerInput)
    ensures
        parse_controller(controller_bytes(c)) == Ok::<ControllerInput, DecodeError>(c),
{
    let s = controller_bytes(c);
    assert(s.subrange(0, 9) =~= button_bytes(c.move_up));
    assert(s.subrange(9, 18) =~= button_bytes(c.move_down));
    assert(s.subrange(18, 27) =~= button_bytes(c.move_left));
    assert(s.subrange(27, 36) =~= button_bytes(c.move_right));
    lemma_button_roundtrip(c.move_up);
    lemma_button_roundtrip(c.move_down);
    lemma_button_roundtrip(c.move_left);
    lemma_button_roundtrip(c.move_right);
}

/// The encoding of a non-empty controller sequence splits into the first
/// controller's bytes and the encoding of the rest.
proof fn lemma_controllers_bytes_decompose(cs: Seq<ControllerInput>)
    requires
        cs.len() > 0,
    ensures
        controllers_bytes(cs).subrange(0, 36) == controller_bytes(cs[0]),
        controllers_bytes(cs).skip(36) == controllers_bytes(cs.drop_first()),
{
    lemma_controllers_bytes_len(cs.drop_first());
    assert(controllers_bytes(cs).subrange(0, 36) =~= controller_bytes(cs[0]));
    assert(controllers_bytes(cs).skip(36) =~= controllers_bytes(cs.drop_first()));
}

/// A controller sequence's encoding parses back to the sequence.
pub proof fn lemma_controllers_roundtrip(cs: Seq<ControllerInput>)
    ensures
        parse_controllers(controllers_bytes(cs), cs.len()) == Ok::<
            Seq<ControllerInput>,
            DecodeError,
        >(cs),
    decreases cs.len(),
{
    if cs.len() > 0 {
        let s = controllers_bytes(cs);
        lemma_controllers_bytes_decompose(cs);
        lemma_controller_roundtrip(cs[0]);
        lemma_controllers_roundtrip(cs.drop_first());
        assert(parse_controllers(s, cs.len()) == Ok::<Seq<ControllerInput>, DecodeError>(
            seq![cs[0]] + cs.drop_first(),
        ));
        assert(seq![cs[0]] + cs.drop_first() =~= cs);
    } else {
        assert(cs =~= Seq::<ControllerInput>::empty());
    }
}

/// Round trip: decoding an encoded input gives back exactly the controllers
/// that were encoded, for any non-empty controller sequence.
pub proof fn lemma_input_roundtrip(cs: Seq<ControllerInput>)
    requires
        1 <= cs.len() <= usize::MAX,
    ensures
        parse_input(input_bytes(cs)) == Ok::<Seq<ControllerInput>, DecodeError>(cs),
{
    let s = input_bytes(cs);
    lemma_controllers_bytes_len(cs);
    assert(s.subrange(0, 8) =~= le8(cs.len() as int));
    lemma_le8_roundtrip(cs.len() as int);
    assert(s.skip(8) =~= controllers_bytes(cs));
    lemma_controllers_roundtrip(cs);
}

/// Fixed-size encoding: any input with the canonical controller count
/// encodes to exactly `GAME_INPUT_RECORD_SIZE` bytes.
pub proof fn lemma_fixed_record_size(cs: Seq<ControllerInput>)
    requires
        cs.len() == CONTROLLER_COUNT,
    ensures
        input_bytes(cs).len() == GAME_INPUT_RECORD_SIZE,
{
    lemma_controllers_bytes_len(cs);
}

/// Appends the nine bytes of one button.
fn encode_button(out: &mut Vec<u8>, b: GameButtonState)
    ensures
        final(out)@ == old(out)@ + button_bytes(b),
{
    out.push(if b.ended_down { 1u8 } else { 0u8 });
    push_u64_le(out, b.half_transition_count as u64);
    proof {
        assert(out@ =~= old(out)@ + button_bytes(b));
    }
}

/// Appends the 36 bytes of one controller.
fn encode_controller(out: &mut Vec<u8>, c: ControllerInput)
    ensures
        final(out)@ == old(out)@ + controller_bytes(c),
{
    encode_button(out, c.move_up);
    encode_button(out, c.move_down);
    encode_button(out, c.move_left);
    encode_button(out, c.move_right);
    proof {
        assert(out@ =~= old(out)@ + controller_bytes(c));
    }
}

/// Encodes one frame's input into its canonical byte representation.
pub fn encode_game_input(input: &GameInput) -> (r: Vec<u8>)
    ensures
        r@ == input_bytes(input@),
        r@.len() == 8 + 36 * input@.len(),
{
    let mut out: Vec<u8> = Vec::new();
    let n = input.controllers.len();
    push_u64_le(&mut out, n as u64);
    let mut i: usize = 0;
    while i < n
        invariant
            n == input@.len(),
            i <= n,
            out@ == le8(n as int) + controllers_bytes(input@.take(i as int)),
        decreases n - i,
    {
        let c = *input.get_controller(i);
        encode_controller(&mut out, c);
        proof {
            assert(input@.take(i + 1) =~= input@.take(i as int).push(input@[i as int]));
            lemma_controllers_bytes_push(input@.take(i as int), input@[i as int]);
            assert(le8(n as int) + controllers_bytes(input@.take(i as int)) + controller_bytes(
                input@[i as int],
            ) =~= le8(n as int) + controllers_bytes(input@.take(i + 1)));
        }
        i += 1;
    }
    proof {
        assert(input@.take(n as int) =~= input@);
        lemma_controllers_bytes_len(input@);
    }
    out
}

/// Reads the nine bytes of one button at `pos`.
fn decode_button(bytes: &Vec<u8>, pos: usize) -> (r: Result<GameButtonState, DecodeError>)
    requires
        pos + 9 <= usize::MAX,
        pos + 9 <= bytes@.len(),
    ensures
        r == parse_button(bytes@.subrange(pos as int, pos as int + 9)),
{
    let ghost s = bytes@.subrange(pos as int, pos as int + 9);
    proof {
        assert(s.subrange(1, 9) =~= bytes@.subrange(pos as int + 1, pos as int + 9));
    }
    let tag = bytes[pos];
    if tag != 0 && tag != 1 {
        return Err(DecodeError::InvalidBool);
    }
    let v = read_u64_le(bytes, pos + 1);
    if v > usize::MAX as u64 {
        return Err(DecodeError::ValueOutOfRange);
    }
    Ok(GameButtonState { ended_down: tag == 1, half_transition_count: v as usize })
}

/// Reads the 36 bytes of one controller at `pos`.
fn decode_controller(bytes: &Vec<u8>, pos: usize) -> (r: Result<ControllerInput, DecodeError>)
    requires
        pos + 36 <= usize::MAX,
        pos + 36 <= bytes@.len(),
    ensures
        r == parse_controller(bytes@.subrange(pos as int, pos as int + 36)),
{
    let ghost s = bytes@.subrange(pos as int, pos as int + 36);
    proof {
        assert(s.subrange(0, 9) =~= bytes@.subrange(pos as int, pos as int + 9));
        assert(s.subrange(9, 18) =~= bytes@.subrange(pos as int + 9, pos as int + 18));
        assert(s.subrange(18, 27) =~= bytes@.subrange(pos as int + 18, pos as int + 27));
        assert(s.subrange(27, 36) =~= bytes@.subrange(pos as int + 27, pos as int + 36));
    }
    let up = match decode_button(bytes, pos) {
        Ok(b) => b,
        Err(e) => {
            return Err(e);
        },
    };
    let down = match decode_button(bytes, pos + 9) {
        Ok(b) => b,
        Err(e) => {
            return Err(e);
        },
    };
    let left = match decode_button(bytes, pos + 18) {
        Ok(b) => b,
        Err(e) => {
            return Err(e);
        },
    };
    let right = match decode_button(bytes, pos + 27) {
        Ok(b) => b,
        Err(e) => {
            return Err(e);
        },
    };
    Ok(ControllerInput { move_up: up, move_down: down, move_left: left, move_right: right })
}

/// Reads `n` consecutive controllers at `pos`.
fn decode_controllers(bytes: &Vec<u8>, pos: usize, n: usize) -> (r: Result<
    Vec<ControllerInput>,
    DecodeError,
>)
    requires
        bytes@.len() <= usize::MAX,
        pos + 36 * n <= bytes@.len(),
    ensures
        match r {
            Ok(v) => parse_controllers(
                bytes@.subrange(pos as int, pos as int + 36 * n),
                n as nat,
            ) == Ok::<Seq<ControllerInput>, DecodeError>(v@),
            Err(e) => parse_controllers(bytes@.subrange(pos as int, pos as int + 36 * n), n as nat)
                == Err::<Seq<ControllerInput>, DecodeError>(e),
        },
    decreases n,
{
    let ghost s = bytes@.subrange(pos as int, pos as int + 36 * n);
    if n == 0 {
        return Ok(Vec::new());
    }
    proof {
        assert(s.subrange(0, 36) =~= bytes@.subrange(pos as int, pos as int + 36));
        assert(s.skip(36) =~= bytes@.subrange(pos as int + 36, pos as int + 36 + 36 * (n - 1)));
    }
    let c = match decode_controller(bytes, pos) {
        Ok(c) => c,
        Err(e) => {
            return Err(e);
        },
    };
    let mut rest = match decode_controllers(bytes, pos + 36, n - 1) {
        Ok(v) => v,
        Err(e) => {
            return Err(e);
        },
    };
    let ghost parsed_rest = rest@;
    rest.insert(0, c);
    proof {
        assert(rest@ =~= seq![c] + parsed_rest);
    }
    Ok(rest)
}

/// Decodes one frame's input from its canonical byte representation,
/// rejecting corrupt input rather than substituting defaults.
pub fn decode_game_input(bytes: &Vec<u8>) -> (r: Result<GameInput, DecodeError>)
    ensures
        match r {
            Ok(g) => parse_input(bytes@) == Ok::<Seq<ControllerInput>, DecodeError>(g@),
            Err(e) => parse_input(bytes@) == Err::<Seq<ControllerInput>, DecodeError>(e),
        },
{
    if bytes.len() < 8 {
        return Err(DecodeError::LengthMismatch);
    }
    let n64 = read_u64_le(bytes, 0);
    if n64 == 0 {
        return Err(DecodeError::ValueOutOfRange);
    }
    let rest_len = bytes.len() - 8;
    if rest_len % 36 != 0 || (rest_len / 36) as u64 != n64 {
        proof {
            assert(rest_len == 36 * (rest_len / 36) + rest_len % 36);
        }
        return Err(DecodeError::LengthMismatch);
    }
    let n = rest_len / 36;
    proof {
        assert(bytes@.len() - 8 == 36 * (n64 as int));
        assert(bytes@.subrange(8, 8 + 36 * (n as int)) =~= bytes@.skip(8));
    }
    match decode_controllers(bytes, 8, n) {
        Ok(cs) => Ok(GameInput { controllers: cs }),
        Err(e) => Err(e),
    }
}

/// The startup invariant check: a freshly constructed default input encodes
/// to exactly `GAME_INPUT_RECORD_SIZE` bytes. Provably always true; exposed
/// so a driver can still assert it before entering its frame loop.
pub fn input_encoding_size_ok() -> (r: bool)
    ensures
        r,
{
    let input = GameInput::new(CONTROLLER_COUNT);
    let encoded = encode_game_input(&input);
    encoded.len() == GAME_INPUT_RECORD_SIZE
}

} // verus!
